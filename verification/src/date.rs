//! Stored calendar dates and days of the week.

use chrono::{Datelike, NaiveDate, TimeDelta};
use vstd::arithmetic::div_mod::lemma_mod_multiples_vanish;
use vstd::prelude::*;

use crate::calendar::{
    date_le, date_lt, day_number, days_in_month, in_calendar_range, is_leap_year, is_valid_date,
    lemma_calendar_range, CivilDate, MAX_DAY_NUMBER, MAX_YEAR, MIN_DAY_NUMBER, MIN_YEAR,
};

verus! {

/// A day of the week.
#[derive(Clone, Copy, Debug, PartialEq, Eq, Structural, Hash)]
pub enum Weekday {
    Mon,
    Tue,
    Wed,
    Thu,
    Fri,
    Sat,
    Sun,
}

impl Weekday {
    /// Days since the Monday of the same week: 0 for Monday up to 6 for Sunday.
    pub open spec fn index(self) -> int {
        match self {
            Weekday::Mon => 0,
            Weekday::Tue => 1,
            Weekday::Wed => 2,
            Weekday::Thu => 3,
            Weekday::Fri => 4,
            Weekday::Sat => 5,
            Weekday::Sun => 6,
        }
    }

    /// Days since the Monday of the same week: 0 for Monday up to 6 for Sunday.
    pub fn num_days_from_monday(&self) -> (n: u32)
        ensures
            n == self.index(),
    {
        match self {
            Weekday::Mon => 0,
            Weekday::Tue => 1,
            Weekday::Wed => 2,
            Weekday::Thu => 3,
            Weekday::Fri => 4,
            Weekday::Sat => 5,
            Weekday::Sun => 6,
        }
    }

    /// The weekday that lies `n` days after a Monday, for `n` below 7.
    pub(crate) fn from_days_from_monday(n: u32) -> (day: Weekday)
        requires
            n < 7,
        ensures
            day.index() == n,
    {
        if n == 0 {
            Weekday::Mon
        } else if n == 1 {
            Weekday::Tue
        } else if n == 2 {
            Weekday::Wed
        } else if n == 3 {
            Weekday::Thu
        } else if n == 4 {
            Weekday::Fri
        } else if n == 5 {
            Weekday::Sat
        } else {
            Weekday::Sun
        }
    }
}

/// The weekday index (0 for Monday) of a date: January 1 of year 1 is a Monday.
pub open spec fn weekday_index(c: CivilDate) -> int {
    (day_number(c) - 1) % 7
}

/// A date of the proleptic Gregorian calendar between the years `MIN_YEAR`
/// and `MAX_YEAR`.
#[derive(Clone, Copy, Debug, PartialEq, Eq, Structural, PartialOrd, Ord, Hash)]
pub struct Date {
    year: i32,
    month: u32,
    day: u32,
}

impl View for Date {
    type V = CivilDate;

    closed spec fn view(&self) -> CivilDate {
        CivilDate { year: self.year as int, month: self.month as int, day: self.day as int }
    }
}

/// Whether `year` is a leap year.
pub fn leap_year(year: i32) -> (leap: bool)
    ensures
        leap == is_leap_year(year as int),
{
    // A multiple of 400 that lifts every `i32` year to a non-negative number.
    let lifted: i64 = year as i64 + 2_147_484_000;
    proof {
        lemma_mod_multiples_vanish(536_871_000, year as int, 4);
        lemma_mod_multiples_vanish(21_474_840, year as int, 100);
        lemma_mod_multiples_vanish(5_368_710, year as int, 400);
    }
    lifted % 4 == 0 && (lifted % 100 != 0 || lifted % 400 == 0)
}

/// Number of days of `month` in `year`; `month` is 1 for January up to 12 for December.
pub fn last_day_of_month_year(month: u32, year: i32) -> (last: u32)
    requires
        1 <= month <= 12,
    ensures
        last == days_in_month(year as int, month as int),
{
    if month == 2 {
        if leap_year(year) {
            29
        } else {
            28
        }
    } else if month == 4 || month == 6 || month == 9 || month == 11 {
        30
    } else {
        31
    }
}

impl Date {
    /// The date exists in the calendar and its year can be stored.
    pub open spec fn wf(&self) -> bool {
        is_valid_date(self@) && in_calendar_range(self@)
    }

    /// Two stored dates are the same exactly when they model the same date.
    pub proof fn lemma_view_injective(a: Date, b: Date)
        ensures
            a@ == b@ <==> a == b,
    {
    }

    /// The date of the given year, month and day, if it exists and can be stored.
    pub fn from_ymd_opt(year: i32, month: u32, day: u32) -> (date: Option<Date>)
        ensures
            date.is_some() <==> {
                let c = CivilDate { year: year as int, month: month as int, day: day as int };
                is_valid_date(c) && in_calendar_range(c)
            },
            date.is_some() ==> date.unwrap().wf() && date.unwrap()@ == (CivilDate {
                year: year as int,
                month: month as int,
                day: day as int,
            }),
    {
        if year < MIN_YEAR || year > MAX_YEAR || month < 1 || month > 12 || day < 1 {
            return None;
        }
        if day > last_day_of_month_year(month, year) {
            return None;
        }
        Some(Date { year, month, day })
    }

    /// The date of the given year, month and day.
    pub fn from_ymd(year: i32, month: u32, day: u32) -> (date: Date)
        requires
            MIN_YEAR <= year <= MAX_YEAR,
            1 <= month <= 12,
            1 <= day <= days_in_month(year as int, month as int),
        ensures
            date.wf(),
            date@ == (CivilDate { year: year as int, month: month as int, day: day as int }),
    {
        Date { year, month, day }
    }

    /// The year.
    pub fn year(&self) -> (year: i32)
        ensures
            year == self@.year,
    {
        self.year
    }

    /// The month, 1 for January up to 12 for December.
    pub fn month(&self) -> (month: u32)
        ensures
            month == self@.month,
    {
        self.month
    }

    /// The day of the month, starting at 1.
    pub fn day(&self) -> (day: u32)
        ensures
            day == self@.day,
    {
        self.day
    }

    /// Whether `self` is strictly earlier than `other`.
    pub fn is_before(&self, other: &Date) -> (earlier: bool)
        ensures
            earlier == date_lt(self@, other@),
    {
        self.year < other.year || (self.year == other.year && (self.month < other.month || (
        self.month == other.month && self.day < other.day)))
    }

    /// Whether `self` is `other` or earlier.
    pub fn is_on_or_before(&self, other: &Date) -> (not_later: bool)
        ensures
            not_later == date_le(self@, other@),
    {
        *self == *other || self.is_before(other)
    }

    /// The date's number in the consecutive numbering of days, January 1 of
    /// year 1 being day 1.
    pub fn num_days_from_ce(&self) -> (n: i64)
        requires
            self.wf(),
        ensures
            n == day_number(self@),
            MIN_DAY_NUMBER <= n <= MAX_DAY_NUMBER,
    {
        proof {
            lemma_calendar_range(self@);
        }
        let n: i32 = days_from_ce(*self);
        n as i64
    }

    /// The day of the week.
    pub fn weekday(&self) -> (day: Weekday)
        requires
            self.wf(),
        ensures
            day.index() == weekday_index(self@),
    {
        let n: u32 = weekday_from_monday(*self);
        Weekday::from_days_from_monday(n)
    }
}

/// The date `days` days after `date`, computed by chrono's
/// `NaiveDate + TimeDelta`. The contract claims what that addition is
/// documented to do: the result is the calendar date whose day number is
/// larger by `days`. The addition panics outside chrono's range of dates,
/// which is the range of day numbers that `requires` admits.
#[verifier::external_body]
pub(crate) fn shift_by_days(date: Date, days: i64) -> (shifted: Date)
    requires
        date.wf(),
        MIN_DAY_NUMBER <= day_number(date@) + days <= MAX_DAY_NUMBER,
    ensures
        shifted.wf(),
        day_number(shifted@) == day_number(date@) + days,
{
    let from = NaiveDate::from_ymd_opt(date.year, date.month, date.day).unwrap();
    let to = from + TimeDelta::days(days);
    Date { year: to.year(), month: to.month(), day: to.day() }
}

/// The day number of `date`, computed by chrono's
/// `Datelike::num_days_from_ce`, which counts the days of the proleptic
/// Gregorian calendar with January 1 of year 1 as day 1.
#[verifier::external_body]
fn days_from_ce(date: Date) -> (n: i32)
    requires
        date.wf(),
    ensures
        n == day_number(date@),
{
    NaiveDate::from_ymd_opt(date.year, date.month, date.day).unwrap().num_days_from_ce()
}

/// The day of the week of `date` as chrono's `Datelike::weekday` gives it,
/// counted in days from Monday by `Weekday::num_days_from_monday`. The
/// contract claims that this is the weekday of the proleptic Gregorian
/// calendar, in which day number 1 is a Monday.
#[verifier::external_body]
fn weekday_from_monday(date: Date) -> (n: u32)
    requires
        date.wf(),
    ensures
        n == weekday_index(date@),
{
    let day = NaiveDate::from_ymd_opt(date.year, date.month, date.day).unwrap();
    day.weekday().num_days_from_monday()
}

} // verus!
