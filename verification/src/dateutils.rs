//! Calendar arithmetic on dates: month boundaries, and shifts by days,
//! months and years. A shift by months or years that lands in a shorter
//! month gives that month's last day.

use bigdecimal::BigDecimal;
use num_traits::FromPrimitive;
use vstd::prelude::*;

use crate::calendar::{
    day_number, in_calendar_range, in_year, lemma_calendar_range, lemma_date_of_day_number,
    lemma_day_number_order, lemma_plus_days_range, lemma_plus_one_day, month_end, month_start,
    next_day, plus_days, plus_months, previous_day, MAX_DAY_NUMBER, MAX_YEAR, MIN_DAY_NUMBER,
    MIN_YEAR,
};
use crate::date::{last_day_of_month_year, shift_by_days, Date};
use crate::time::{instant, trunc_div, DateTime, DateTimeModel};

verus! {

/// The first day of the month of `date`.
pub fn first_day_of_month(date: Date) -> (first: Date)
    requires
        date.wf(),
    ensures
        first.wf(),
        first@ == month_start(date@),
{
    Date::from_ymd(date.year(), date.month(), 1)
}

/// The last day of the month of `date`.
pub fn last_day_of_month(date: Date) -> (last: Date)
    requires
        date.wf(),
    ensures
        last.wf(),
        last@ == month_end(date@),
{
    Date::from_ymd(date.year(), date.month(), last_day_of_month_year(date.month(), date.year()))
}

/// Whether the date `days` days after `date` can be stored.
pub fn can_add_days(date: Date, days: i64) -> (fits: bool)
    requires
        date.wf(),
    ensures
        fits == in_calendar_range(plus_days(date@, days as int)),
{
    proof {
        lemma_plus_days_range(date@, days as int);
    }
    let n: i64 = date.num_days_from_ce();
    MIN_DAY_NUMBER - n <= days && days <= MAX_DAY_NUMBER - n
}

/// Whether the date `months` months after `date` can be stored.
pub fn can_add_months(date: Date, months: i32) -> (fits: bool)
    requires
        date.wf(),
    ensures
        fits == in_calendar_range(plus_months(date@, months as int)),
{
    let total: i64 = (date.year() as i64) * 12 + (date.month() as i64 - 1) + months as i64;
    (MIN_YEAR as i64) * 12 <= total && total <= (MAX_YEAR as i64) * 12 + 11
}

/// The date `days` days after `date`; before it, for a negative count.
pub fn add_days(date: Date, days: i64) -> (shifted: Date)
    requires
        date.wf(),
        in_calendar_range(plus_days(date@, days as int)),
    ensures
        shifted.wf(),
        shifted@ == plus_days(date@, days as int),
{
    proof {
        lemma_date_of_day_number(day_number(date@) + days);
        lemma_calendar_range(plus_days(date@, days as int));
    }
    let shifted = shift_by_days(date, days);
    proof {
        lemma_day_number_order(shifted@, plus_days(date@, days as int));
    }
    shifted
}

/// The date `days` days before `date`; after it, for a negative count.
pub fn subtract_days(date: Date, days: i64) -> (shifted: Date)
    requires
        date.wf(),
        in_calendar_range(plus_days(date@, -(days as int))),
    ensures
        shifted.wf(),
        shifted@ == plus_days(date@, -(days as int)),
{
    proof {
        lemma_date_of_day_number(day_number(date@) - days);
        lemma_calendar_range(plus_days(date@, -(days as int)));
        lemma_calendar_range(date@);
    }
    add_days(date, -days)
}

/// The day after `date`.
pub(crate) fn day_after(date: Date) -> (next: Date)
    requires
        date.wf(),
        in_calendar_range(next_day(date@)),
    ensures
        next.wf(),
        next@ == next_day(date@),
{
    proof {
        lemma_plus_one_day(date@);
    }
    add_days(date, 1)
}

/// The day before `date`.
pub(crate) fn day_before(date: Date) -> (previous: Date)
    requires
        date.wf(),
        in_calendar_range(previous_day(date@)),
    ensures
        previous.wf(),
        previous@ == previous_day(date@),
{
    proof {
        lemma_plus_one_day(date@);
    }
    add_days(date, -1)
}

/// The date `months` calendar months after `date`; before it, for a
/// negative count.
pub fn add_months(date: Date, months: i32) -> (shifted: Date)
    requires
        date.wf(),
        in_calendar_range(plus_months(date@, months as int)),
    ensures
        shifted.wf(),
        shifted@ == plus_months(date@, months as int),
{
    shift_months(date, months as i64)
}

/// The date `months` calendar months before `date`; after it, for a
/// negative count.
pub fn subtract_months(date: Date, months: i32) -> (shifted: Date)
    requires
        date.wf(),
        in_calendar_range(plus_months(date@, -(months as int))),
    ensures
        shifted.wf(),
        shifted@ == plus_months(date@, -(months as int)),
{
    shift_months(date, -(months as i64))
}

/// The date `years` years after `date`; before it, for a negative count.
pub fn add_years(date: Date, years: i32) -> (shifted: Date)
    requires
        date.wf(),
        in_calendar_range(plus_months(date@, 12 * (years as int))),
    ensures
        shifted.wf(),
        shifted@ == plus_months(date@, 12 * (years as int)),
{
    shift_months(date, 12 * (years as i64))
}

/// The date `years` years before `date`; after it, for a negative count.
pub fn subtract_years(date: Date, years: i32) -> (shifted: Date)
    requires
        date.wf(),
        in_calendar_range(plus_months(date@, -12 * (years as int))),
    ensures
        shifted.wf(),
        shifted@ == plus_months(date@, -12 * (years as int)),
{
    shift_months(date, -12 * (years as i64))
}

/// `date` with its year replaced by `year`; February 29 becomes February 28
/// where `year` is no leap year.
pub fn with_year_safe(date: Date, year: i32) -> (moved: Date)
    requires
        date.wf(),
        MIN_YEAR <= year <= MAX_YEAR,
    ensures
        moved.wf(),
        moved@ == in_year(date@, year as int),
{
    let last = last_day_of_month_year(date.month(), year);
    let day = if date.day() < last {
        date.day()
    } else {
        last
    };
    Date::from_ymd(year, date.month(), day)
}

/// The earlier of two points in time; `time1` where they are the same.
pub fn earliest(time1: DateTime, time2: DateTime) -> (first: DateTime)
    requires
        time1.wf(),
        time2.wf(),
    ensures
        first == if instant(time2@) < instant(time1@) {
            time2
        } else {
            time1
        },
{
    if time2.is_before(&time1) {
        time2
    } else {
        time1
    }
}

/// The earlier of two optional points in time: the one that is given
/// where only one is, and `None` where none is.
pub fn earliest_opt(time1: Option<DateTime>, time2: Option<DateTime>) -> (first: Option<
    DateTime,
>)
    requires
        time1 matches Some(t) ==> t.wf(),
        time2 matches Some(t) ==> t.wf(),
    ensures
        first == match (time1, time2) {
            (None, None) => None::<DateTime>,
            (Some(t1), None) => Some(t1),
            (None, Some(t2)) => Some(t2),
            (Some(t1), Some(t2)) => Some(
                if instant(t1@) <= instant(t2@) {
                    t1
                } else {
                    t2
                },
            ),
        },
{
    match (time1, time2) {
        (None, None) => None,
        (Some(t1), None) => Some(t1),
        (None, Some(t2)) => Some(t2),
        (Some(t1), Some(t2)) => Some(
            if t1.is_on_or_before(&t2) {
                t1
            } else {
                t2
            },
        ),
    }
}

/// The later of two points in time; `time1` where they are the same.
pub fn latest(time1: DateTime, time2: DateTime) -> (last: DateTime)
    requires
        time1.wf(),
        time2.wf(),
    ensures
        last == if instant(time1@) < instant(time2@) {
            time2
        } else {
            time1
        },
{
    if time1.is_before(&time2) {
        time2
    } else {
        time1
    }
}

/// The later of two optional points in time: the one that is given where
/// only one is, and `None` where none is.
pub fn latest_opt(time1: Option<DateTime>, time2: Option<DateTime>) -> (last: Option<DateTime>)
    requires
        time1 matches Some(t) ==> t.wf(),
        time2 matches Some(t) ==> t.wf(),
    ensures
        last == match (time1, time2) {
            (None, None) => None::<DateTime>,
            (Some(t1), None) => Some(t1),
            (None, Some(t2)) => Some(t2),
            (Some(t1), Some(t2)) => Some(
                if instant(t1@) >= instant(t2@) {
                    t1
                } else {
                    t2
                },
            ),
        },
{
    match (time1, time2) {
        (None, None) => None,
        (Some(t1), None) => Some(t1),
        (None, Some(t2)) => Some(t2),
        (Some(t1), Some(t2)) => Some(
            if t2.is_on_or_before(&t1) {
                t1
            } else {
                t2
            },
        ),
    }
}

/// Whole seconds from `start` to `end`, rounded towards zero.
pub open spec fn seconds_between(start: DateTimeModel, end: DateTimeModel) -> int {
    trunc_div(instant(end) - instant(start), 1000)
}

/// Whole hours from `start` to `end`, rounded towards zero. The seconds
/// between the two are cut to 32 bits before they are counted in hours.
pub fn duration_in_hours(start: DateTime, end: DateTime) -> (hours: i32)
    requires
        start.wf(),
        end.wf(),
    ensures
        hours == trunc_div((seconds_between(start@, end@) as i32) as int, 3600),
        i32::MIN <= seconds_between(start@, end@) <= i32::MAX ==> hours == trunc_div(
            seconds_between(start@, end@),
            3600,
        ),
{
    let seconds: i64 = end.signed_duration_since(&start).num_seconds();
    let cut: i32 = #[verifier::truncate]
    (seconds as i32);
    cut / 3_600
}

/// Whole minutes from `start` to `end`, rounded towards zero. The seconds
/// between the two are cut to 32 bits before they are counted in minutes.
pub fn duration_in_minutes(start: DateTime, end: DateTime) -> (minutes: i32)
    requires
        start.wf(),
        end.wf(),
    ensures
        minutes == trunc_div((seconds_between(start@, end@) as i32) as int, 60),
        i32::MIN <= seconds_between(start@, end@) <= i32::MAX ==> minutes == trunc_div(
            seconds_between(start@, end@),
            60,
        ),
{
    let seconds: i64 = end.signed_duration_since(&start).num_seconds();
    let cut: i32 = #[verifier::truncate]
    (seconds as i32);
    cut / 60
}

/// Whole seconds from `start` to `end`, rounded towards zero and cut to 32 bits.
pub fn duration_in_seconds(start: DateTime, end: DateTime) -> (seconds: i32)
    requires
        start.wf(),
        end.wf(),
    ensures
        seconds == seconds_between(start@, end@) as i32,
        i32::MIN <= seconds_between(start@, end@) <= i32::MAX ==> seconds == seconds_between(
            start@,
            end@,
        ),
{
    let seconds: i64 = end.signed_duration_since(&start).num_seconds();
    let cut: i32 = #[verifier::truncate]
    (seconds as i32);
    cut
}

/// The time from `start` to `end` in seconds, as a decimal: the decimal
/// quotient of the milliseconds from `start` to `end` by 1000, negative
/// where `end` is the earlier.
pub fn duration_in_fractional_seconds_bd(start: DateTime, end: DateTime) -> (seconds: BigDecimal)
    requires
        start.wf(),
        end.wf(),
    ensures
        seconds == decimal_quotient_of(instant(end@) - instant(start@), 1000),
{
    let millis: i64 = end.signed_duration_since(&start).num_milliseconds();
    decimal_quotient(millis, 1_000)
}

/// The time from `start` to `end` in hours, as a decimal: the decimal
/// quotient by 3600 of the whole seconds from `start` to `end`, which are
/// rounded towards zero and negative where `end` is the earlier.
pub fn duration_in_fractional_hours_bd(start: DateTime, end: DateTime) -> (hours: BigDecimal)
    requires
        start.wf(),
        end.wf(),
    ensures
        hours == decimal_quotient_of(seconds_between(start@, end@), 3600),
{
    let secs: i64 = end.signed_duration_since(&start).num_seconds();
    decimal_quotient(secs, 3_600)
}

/// bigdecimal's type of decimal numbers of any size, which the library
/// hands on without looking into it.
#[verifier::external_type_specification]
#[verifier::external_body]
pub struct ExBigDecimal(BigDecimal);

/// The decimal that bigdecimal's division gives for two integers. The
/// division works digit by digit, up to the number of digits that
/// bigdecimal was built with, and rounds the last one; it reads nothing
/// but its two operands, so the quotient is a function of them.
pub uninterp spec fn decimal_quotient_of(numerator: int, denominator: int) -> BigDecimal;

/// The quotient of two integers as a decimal: each is turned into a
/// `BigDecimal`, the numerator by num_traits' `FromPrimitive::from_i64`,
/// which bigdecimal answers for every `i64`, and the two are divided by
/// bigdecimal's `/`. That division panics for a divisor of zero, which
/// `requires` leaves out. The contract claims only that the quotient is
/// the one that this division gives for these two integers; of its
/// digits it claims nothing.
#[verifier::external_body]
fn decimal_quotient(numerator: i64, denominator: i32) -> (quotient: BigDecimal)
    requires
        denominator != 0,
    ensures
        quotient == decimal_quotient_of(numerator as int, denominator as int),
{
    BigDecimal::from_i64(numerator).unwrap() / BigDecimal::from(denominator)
}

/// Shifts `date` by a count of months that may exceed `i32`.
fn shift_months(date: Date, months: i64) -> (shifted: Date)
    requires
        date.wf(),
        -30_000_000_000 <= months <= 30_000_000_000,
        in_calendar_range(plus_months(date@, months as int)),
    ensures
        shifted.wf(),
        shifted@ == plus_months(date@, months as int),
{
    let total: i64 = (date.year() as i64) * 12 + (date.month() as i64 - 1) + months;
    // Months counted from January of the earliest year, so that division rounds down.
    let lifted: i64 = total - (MIN_YEAR as i64) * 12;
    assert(total / 12 == MIN_YEAR + lifted / 12 && total % 12 == lifted % 12);
    let year: i32 = (MIN_YEAR as i64 + lifted / 12) as i32;
    let month: u32 = (lifted % 12 + 1) as u32;
    let last = last_day_of_month_year(month, year);
    let day = if date.day() < last {
        date.day()
    } else {
        last
    };
    Date::from_ymd(year, month, day)
}

} // verus!
