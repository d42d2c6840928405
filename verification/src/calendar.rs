//! The proleptic Gregorian calendar as mathematics: which dates exist, how
//! they are ordered, and how they are numbered by consecutive days.

use vstd::prelude::*;

verus! {

/// A calendar date as three unbounded integers. This is the mathematical
/// model that every contract on dates speaks of.
pub struct CivilDate {
    pub year: int,
    pub month: int,
    pub day: int,
}

/// The earliest year a stored date may have. The years from `MIN_YEAR`
/// to `MAX_YEAR` are those of chrono's `NaiveDate`, which does the
/// library's arithmetic on days.
pub const MIN_YEAR: i32 = -262143;

/// The latest year a stored date may have.
pub const MAX_YEAR: i32 = 262142;

/// Day number of January 1 of `MIN_YEAR`, the earliest date that can be stored.
pub const MIN_DAY_NUMBER: i64 = -95746129;

/// Day number of December 31 of `MAX_YEAR`, the latest date that can be stored.
pub const MAX_DAY_NUMBER: i64 = 95745399;

/// Gregorian leap-year rule: every fourth year, except centuries not divisible by 400.
pub open spec fn is_leap_year(year: int) -> bool {
    year % 4 == 0 && (year % 100 != 0 || year % 400 == 0)
}

/// Number of days of `month` in `year` (31 for a month outside 1..=12).
pub open spec fn days_in_month(year: int, month: int) -> int {
    if month == 2 {
        if is_leap_year(year) { 29 } else { 28 }
    } else if month == 4 || month == 6 || month == 9 || month == 11 {
        30
    } else {
        31
    }
}

/// Number of days in `year`.
pub open spec fn days_in_year(year: int) -> int {
    if is_leap_year(year) { 366 } else { 365 }
}

/// Days of `year` that lie before the first day of `month`.
pub open spec fn days_before_month(year: int, month: int) -> int {
    let leap: int = if is_leap_year(year) { 1 } else { 0 };
    if month <= 1 {
        0
    } else if month == 2 {
        31
    } else if month == 3 {
        59 + leap
    } else if month == 4 {
        90 + leap
    } else if month == 5 {
        120 + leap
    } else if month == 6 {
        151 + leap
    } else if month == 7 {
        181 + leap
    } else if month == 8 {
        212 + leap
    } else if month == 9 {
        243 + leap
    } else if month == 10 {
        273 + leap
    } else if month == 11 {
        304 + leap
    } else {
        334 + leap
    }
}

/// Days that lie before January 1 of `year`, counted from January 1 of year 1.
pub open spec fn days_before_year(year: int) -> int {
    let y = year - 1;
    365 * y + y / 4 - y / 100 + y / 400
}

/// The date exists in the calendar.
pub open spec fn is_valid_date(c: CivilDate) -> bool {
    1 <= c.month <= 12 && 1 <= c.day <= days_in_month(c.year, c.month)
}

/// The date's year can be stored.
pub open spec fn in_calendar_range(c: CivilDate) -> bool {
    MIN_YEAR <= c.year <= MAX_YEAR
}

/// Consecutive numbering of days, with January 1 of year 1 as day 1.
#[verifier::opaque]
pub open spec fn day_number(c: CivilDate) -> int {
    days_before_year(c.year) + days_before_month(c.year, c.month) + c.day
}

/// Chronological order on dates: `a` is strictly earlier than `b`.
pub open spec fn date_lt(a: CivilDate, b: CivilDate) -> bool {
    a.year < b.year || (a.year == b.year && (a.month < b.month || (a.month == b.month && a.day
        < b.day)))
}

/// Chronological order on dates: `a` is `b` or earlier.
pub open spec fn date_le(a: CivilDate, b: CivilDate) -> bool {
    a == b || date_lt(a, b)
}

/// Going from one year to the next adds that year's days.
pub proof fn lemma_days_before_year_step(year: int)
    ensures
        days_before_year(year + 1) == days_before_year(year) + days_in_year(year),
{
    let y = year - 1;
    assert((y + 1) / 4 - y / 4 == if year % 4 == 0 { 1int } else { 0int });
    assert((y + 1) / 100 - y / 100 == if year % 100 == 0 { 1int } else { 0int });
    assert((y + 1) / 400 - y / 400 == if year % 400 == 0 { 1int } else { 0int });
    assert(year % 400 == 0 ==> year % 100 == 0 && year % 4 == 0);
    assert(year % 100 == 0 ==> year % 4 == 0);
}

/// Going from one month to the next adds that month's days, and the twelve
/// months fill the year.
pub proof fn lemma_days_before_month_step(year: int, month: int)
    requires
        1 <= month <= 12,
    ensures
        month < 12 ==> days_before_month(year, month + 1) == days_before_month(year, month)
            + days_in_month(year, month),
        month == 12 ==> days_before_month(year, month) + days_in_month(year, month)
            == days_in_year(year),
        0 <= days_before_month(year, month),
        days_before_month(year, month) + days_in_month(year, month) <= days_in_year(year),
{
}

/// Later years start on later days, by at least 365 days per year.
pub proof fn lemma_days_before_year_monotonic(earlier: int, later: int)
    requires
        earlier <= later,
    ensures
        days_before_year(earlier) + 365 * (later - earlier) <= days_before_year(later),
        days_before_year(later) <= days_before_year(earlier) + 366 * (later - earlier),
    decreases later - earlier,
{
    if earlier < later {
        lemma_days_before_year_monotonic(earlier, later - 1);
        lemma_days_before_year_step(later - 1);
    }
}

/// Every day of a year is numbered after the year's start and not beyond its end.
pub proof fn lemma_day_number_within_year(c: CivilDate)
    requires
        is_valid_date(c),
    ensures
        days_before_year(c.year) < day_number(c) <= days_before_year(c.year + 1),
{
    reveal(day_number);
    lemma_days_before_month_step(c.year, c.month);
    lemma_days_before_year_step(c.year);
}

/// The day numbering is strictly increasing in chronological order.
pub proof fn lemma_day_number_increasing(a: CivilDate, b: CivilDate)
    requires
        is_valid_date(a),
        is_valid_date(b),
        date_lt(a, b),
    ensures
        day_number(a) < day_number(b),
{
    reveal(day_number);
    if a.year < b.year {
        lemma_day_number_within_year(a);
        lemma_day_number_within_year(b);
        lemma_days_before_year_monotonic(a.year + 1, b.year);
    } else if a.month < b.month {
        lemma_days_before_month_step(a.year, a.month);
    }
}

/// Chronological order and the order of day numbers agree, and no two
/// dates share a day number.
pub proof fn lemma_day_number_order(a: CivilDate, b: CivilDate)
    requires
        is_valid_date(a),
        is_valid_date(b),
    ensures
        date_lt(a, b) <==> day_number(a) < day_number(b),
        date_le(a, b) <==> day_number(a) <= day_number(b),
        a == b <==> day_number(a) == day_number(b),
{
    if date_lt(a, b) {
        lemma_day_number_increasing(a, b);
    } else if date_lt(b, a) {
        lemma_day_number_increasing(b, a);
    }
}

/// The day after `c`.
pub open spec fn next_day(c: CivilDate) -> CivilDate {
    if c.day < days_in_month(c.year, c.month) {
        CivilDate { year: c.year, month: c.month, day: c.day + 1 }
    } else if c.month < 12 {
        CivilDate { year: c.year, month: c.month + 1, day: 1 }
    } else {
        CivilDate { year: c.year + 1, month: 1, day: 1 }
    }
}

/// The day before `c`.
pub open spec fn previous_day(c: CivilDate) -> CivilDate {
    if c.day > 1 {
        CivilDate { year: c.year, month: c.month, day: c.day - 1 }
    } else if c.month > 1 {
        CivilDate { year: c.year, month: c.month - 1, day: days_in_month(c.year, c.month - 1) }
    } else {
        CivilDate { year: c.year - 1, month: 12, day: 31 }
    }
}

/// The day after a date exists and has the next day number.
pub proof fn lemma_next_day(c: CivilDate)
    requires
        is_valid_date(c),
    ensures
        is_valid_date(next_day(c)),
        day_number(next_day(c)) == day_number(c) + 1,
{
    reveal(day_number);
    lemma_days_before_month_step(c.year, c.month);
    lemma_days_before_year_step(c.year);
}

/// The day before a date exists and has the previous day number.
pub proof fn lemma_previous_day(c: CivilDate)
    requires
        is_valid_date(c),
    ensures
        is_valid_date(previous_day(c)),
        day_number(previous_day(c)) == day_number(c) - 1,
{
    reveal(day_number);
    if c.day == 1 && c.month > 1 {
        lemma_days_before_month_step(c.year, c.month - 1);
    }
    lemma_days_before_year_step(c.year - 1);
}

/// Every integer is the day number of some date.
pub proof fn lemma_day_number_onto(n: int)
    ensures
        exists|c: CivilDate| is_valid_date(c) && day_number(c) == n,
    decreases
            if n >= 1 {
                n - 1
            } else {
                1 - n
            },
{
    reveal(day_number);
    if n == 1 {
        let c = CivilDate { year: 1, month: 1, day: 1 };
        assert(is_valid_date(c) && day_number(c) == n);
    } else if n > 1 {
        lemma_day_number_onto(n - 1);
        let p = choose|c: CivilDate| is_valid_date(c) && day_number(c) == n - 1;
        lemma_next_day(p);
        assert(is_valid_date(next_day(p)) && day_number(next_day(p)) == n);
    } else {
        lemma_day_number_onto(n + 1);
        let p = choose|c: CivilDate| is_valid_date(c) && day_number(c) == n + 1;
        lemma_previous_day(p);
        assert(is_valid_date(previous_day(p)) && day_number(previous_day(p)) == n);
    }
}

/// The date whose day number is `n`.
pub open spec fn date_of_day_number(n: int) -> CivilDate {
    choose|c: CivilDate| is_valid_date(c) && day_number(c) == n
}

/// `date_of_day_number` inverts `day_number`.
pub proof fn lemma_date_of_day_number(n: int)
    ensures
        is_valid_date(date_of_day_number(n)),
        day_number(date_of_day_number(n)) == n,
{
    lemma_day_number_onto(n);
}

/// `day_number` inverts `date_of_day_number` on the dates that exist.
pub proof fn lemma_day_number_of_date(c: CivilDate)
    requires
        is_valid_date(c),
    ensures
        date_of_day_number(day_number(c)) == c,
{
    lemma_date_of_day_number(day_number(c));
    lemma_day_number_order(date_of_day_number(day_number(c)), c);
}

/// The date `days` days after `c` (before it, for a negative count).
pub open spec fn plus_days(c: CivilDate, days: int) -> CivilDate {
    date_of_day_number(day_number(c) + days)
}

/// The first day of the month that `c` lies in.
pub open spec fn month_start(c: CivilDate) -> CivilDate {
    CivilDate { year: c.year, month: c.month, day: 1 }
}

/// The last day of the month that `c` lies in.
pub open spec fn month_end(c: CivilDate) -> CivilDate {
    CivilDate { year: c.year, month: c.month, day: days_in_month(c.year, c.month) }
}

/// The date `months` calendar months after `c` (before it, for a negative
/// count). Where the target month is shorter than `c.day`, the day is that
/// month's last day.
pub open spec fn plus_months(c: CivilDate, months: int) -> CivilDate {
    let total = c.year * 12 + (c.month - 1) + months;
    let year = total / 12;
    let month = total % 12 + 1;
    let last = days_in_month(year, month);
    CivilDate { year, month, day: if c.day < last { c.day } else { last } }
}

/// `c` moved into `year`, the day lowered to the month's last day where it
/// does not exist there.
pub open spec fn in_year(c: CivilDate, year: int) -> CivilDate {
    let last = days_in_month(year, c.month);
    CivilDate { year, month: c.month, day: if c.day < last { c.day } else { last } }
}

/// One day later or earlier is `plus_days` by one.
pub proof fn lemma_plus_one_day(c: CivilDate)
    requires
        is_valid_date(c),
    ensures
        plus_days(c, 1) == next_day(c),
        plus_days(c, -1) == previous_day(c),
        plus_days(c, 0) == c,
{
    lemma_next_day(c);
    lemma_previous_day(c);
    lemma_day_number_of_date(next_day(c));
    lemma_day_number_of_date(previous_day(c));
    lemma_day_number_of_date(c);
}

/// Moving by whole months keeps a date in the calendar.
pub proof fn lemma_plus_months_valid(c: CivilDate, months: int)
    requires
        is_valid_date(c),
    ensures
        is_valid_date(plus_months(c, months)),
        plus_months(c, months).year * 12 + plus_months(c, months).month == c.year * 12 + c.month
            + months,
        plus_months(c, 0) == c,
{
}

/// The dates that can be stored are exactly those whose day number lies
/// between `MIN_DAY_NUMBER` and `MAX_DAY_NUMBER`.
pub proof fn lemma_calendar_range(c: CivilDate)
    requires
        is_valid_date(c),
    ensures
        in_calendar_range(c) <==> MIN_DAY_NUMBER <= day_number(c) <= MAX_DAY_NUMBER,
{
    reveal(day_number);
    let first = CivilDate { year: MIN_YEAR as int, month: 1, day: 1 };
    let last = CivilDate { year: MAX_YEAR as int, month: 12, day: 31 };
    assert(day_number(first) == MIN_DAY_NUMBER);
    assert(day_number(last) == MAX_DAY_NUMBER);
    lemma_day_number_order(first, c);
    lemma_day_number_order(c, last);
}

/// A shift by months keeps the chronological order of two dates, and
/// keeps them apart where they lie in different months.
pub proof fn lemma_plus_months_order(a: CivilDate, b: CivilDate, months: int)
    requires
        is_valid_date(a),
        is_valid_date(b),
        date_le(a, b),
    ensures
        date_le(plus_months(a, months), plus_months(b, months)),
        a.year * 12 + a.month < b.year * 12 + b.month ==> date_lt(
            plus_months(a, months),
            plus_months(b, months),
        ),
{
    lemma_plus_months_valid(a, months);
    lemma_plus_months_valid(b, months);
}

/// A shift by a positive count of months gives a later date, by a negative
/// count an earlier one.
pub proof fn lemma_plus_months_direction(c: CivilDate, months: int)
    requires
        is_valid_date(c),
    ensures
        months > 0 ==> date_lt(c, plus_months(c, months)),
        months < 0 ==> date_lt(plus_months(c, months), c),
{
    lemma_plus_months_valid(c, months);
}

/// Going one day on and one day back, or the other way round, returns to the date.
pub proof fn lemma_next_previous_day(c: CivilDate)
    requires
        is_valid_date(c),
    ensures
        previous_day(next_day(c)) == c,
        next_day(previous_day(c)) == c,
{
}

/// Whether a shift by `months` keeps the day of the month of `c`, that
/// is, whether the target month is long enough for it.
pub open spec fn keeps_day(c: CivilDate, months: int) -> bool {
    plus_months(c, months).day == c.day
}

/// A shift by months and back returns to the date exactly where the
/// first shift keeps the day of the month.
pub proof fn lemma_plus_months_round_trip(c: CivilDate, months: int)
    requires
        is_valid_date(c),
    ensures
        plus_months(plus_months(c, months), -months) == c <==> keeps_day(c, months),
{
    lemma_plus_months_valid(c, months);
    let there = plus_months(c, months);
    let back = plus_months(there, -months);
    assert(back.year * 12 + back.month == c.year * 12 + c.month) by {
        lemma_plus_months_valid(there, -months);
    }
    assert(back.year == c.year && back.month == c.month);
}

/// Shifts by days add up, and a shift by no days changes nothing.
pub proof fn lemma_plus_days_add(c: CivilDate, first: int, second: int)
    requires
        is_valid_date(c),
    ensures
        plus_days(plus_days(c, first), second) == plus_days(c, first + second),
        plus_days(c, 0) == c,
{
    lemma_plus_days_range(c, first);
    lemma_day_number_of_date(c);
}

/// A shift by days stays among the dates that can be stored exactly when
/// the shifted day number does.
pub proof fn lemma_plus_days_range(c: CivilDate, days: int)
    requires
        is_valid_date(c),
    ensures
        is_valid_date(plus_days(c, days)),
        day_number(plus_days(c, days)) == day_number(c) + days,
        in_calendar_range(plus_days(c, days)) <==> MIN_DAY_NUMBER <= day_number(c) + days
            <= MAX_DAY_NUMBER,
{
    lemma_date_of_day_number(day_number(c) + days);
    lemma_calendar_range(plus_days(c, days));
}

} // verus!
