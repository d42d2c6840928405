//! Times of day, points in time and lengths of time, all counted in
//! milliseconds.

use vstd::arithmetic::div_mod::lemma_fundamental_div_mod_converse;
use vstd::prelude::*;

use crate::calendar::{
    date_lt, day_number, in_calendar_range, is_valid_date, lemma_calendar_range,
    lemma_day_number_order, lemma_plus_days_range, plus_days, CivilDate, MAX_DAY_NUMBER,
    MIN_DAY_NUMBER,
};
use crate::date::Date;
use crate::dateutils::add_days;

verus! {

/// Milliseconds in a day.
pub const MILLIS_PER_DAY: i64 = 86_400_000;

/// Division that rounds towards zero, for any divisor but zero.
pub open spec fn trunc_div(a: int, b: int) -> int {
    if a >= 0 {
        a / b
    } else {
        -((-a) / b)
    }
}

/// A time of day with millisecond precision; its model is the number of
/// milliseconds since midnight.
#[derive(Clone, Copy, Debug, PartialEq, Eq, Structural, PartialOrd, Ord, Hash)]
pub struct Time {
    millis: u32,
}

impl View for Time {
    type V = int;

    closed spec fn view(&self) -> int {
        self.millis as int
    }
}

impl Time {
    /// The time lies within one day.
    pub open spec fn wf(&self) -> bool {
        0 <= self@ < MILLIS_PER_DAY
    }

    /// Two stored times are the same exactly when they model the same time.
    pub proof fn lemma_view_injective(a: Time, b: Time)
        ensures
            a@ == b@ <==> a == b,
    {
    }

    /// The time of the given hour, minute and second, if there is one.
    pub fn from_hms_opt(hour: u32, min: u32, sec: u32) -> (time: Option<Time>)
        ensures
            time.is_some() <==> hour < 24 && min < 60 && sec < 60,
            time.is_some() ==> time.unwrap().wf() && time.unwrap()@ == (hour * 3600 + min * 60
                + sec) * 1000,
    {
        Time::from_hms_milli_opt(hour, min, sec, 0)
    }

    /// The time of the given hour, minute, second and millisecond, if there is one.
    pub fn from_hms_milli_opt(hour: u32, min: u32, sec: u32, milli: u32) -> (time: Option<Time>)
        ensures
            time.is_some() <==> hour < 24 && min < 60 && sec < 60 && milli < 1000,
            time.is_some() ==> time.unwrap().wf() && time.unwrap()@ == (hour * 3600 + min * 60
                + sec) * 1000 + milli,
    {
        if hour < 24 && min < 60 && sec < 60 && milli < 1000 {
            Some(Time { millis: (hour * 3600 + min * 60 + sec) * 1000 + milli })
        } else {
            None
        }
    }

    /// Midnight, the first time of a day.
    pub fn midnight() -> (time: Time)
        ensures
            time.wf(),
            time@ == 0,
    {
        Time { millis: 0 }
    }

    /// The hour of the day, from 0 to 23.
    pub fn hour(&self) -> (hour: u32)
        ensures
            hour == self@ / 3_600_000,
    {
        self.millis / 3_600_000
    }

    /// The minute of the hour, from 0 to 59.
    pub fn minute(&self) -> (minute: u32)
        ensures
            minute == (self@ / 60_000) % 60,
    {
        (self.millis / 60_000) % 60
    }

    /// The second of the minute, from 0 to 59.
    pub fn second(&self) -> (second: u32)
        ensures
            second == (self@ / 1000) % 60,
    {
        (self.millis / 1000) % 60
    }

    /// Milliseconds since midnight.
    pub fn num_milliseconds_from_midnight(&self) -> (millis: u32)
        ensures
            millis == self@,
    {
        self.millis
    }

    /// Whether `self` is strictly earlier in the day than `other`.
    pub fn is_before(&self, other: &Time) -> (earlier: bool)
        ensures
            earlier == (self@ < other@),
    {
        self.millis < other.millis
    }

    /// Whether `self` is `other` or earlier in the day.
    pub fn is_on_or_before(&self, other: &Time) -> (not_later: bool)
        ensures
            not_later == (self@ <= other@),
    {
        self.millis <= other.millis
    }
}

/// A length of time in milliseconds, negative where it runs backwards.
#[derive(Clone, Copy, Debug, PartialEq, Eq, Structural, PartialOrd, Ord, Hash)]
pub struct Duration {
    millis: i64,
}

impl View for Duration {
    type V = int;

    closed spec fn view(&self) -> int {
        self.millis as int
    }
}

impl Duration {
    /// Two stored lengths are the same exactly when they model the same length.
    pub proof fn lemma_view_injective(a: Duration, b: Duration)
        ensures
            a@ == b@ <==> a == b,
    {
    }

    /// The length of `millis` milliseconds.
    pub fn milliseconds(millis: i64) -> (length: Duration)
        ensures
            length@ == millis,
    {
        Duration { millis }
    }

    /// The length in milliseconds.
    pub fn num_milliseconds(&self) -> (millis: i64)
        ensures
            millis == self@,
    {
        self.millis
    }

    /// The length in whole seconds, rounded towards zero.
    pub fn num_seconds(&self) -> (seconds: i64)
        ensures
            seconds == trunc_div(self@, 1000),
    {
        self.millis / 1000
    }

    /// The length in whole minutes, rounded towards zero.
    pub fn num_minutes(&self) -> (minutes: i64)
        ensures
            minutes == trunc_div(self@, 60_000),
    {
        self.millis / 60_000
    }

    /// The length in whole hours, rounded towards zero.
    pub fn num_hours(&self) -> (hours: i64)
        ensures
            hours == trunc_div(self@, 3_600_000),
    {
        self.millis / 3_600_000
    }
}

/// A point in time as mathematics: a date and the milliseconds since its midnight.
pub struct DateTimeModel {
    pub date: CivilDate,
    pub millis: int,
}

/// Consecutive numbering of the milliseconds of all days.
pub open spec fn instant(t: DateTimeModel) -> int {
    day_number(t.date) * MILLIS_PER_DAY + t.millis
}

/// The date of the moment exists and its time lies within one day.
pub open spec fn moment_wf(t: DateTimeModel) -> bool {
    is_valid_date(t.date) && 0 <= t.millis < MILLIS_PER_DAY
}

/// The moment `millis` milliseconds after `t`; before it, for a negative count.
pub open spec fn plus_millis(t: DateTimeModel, millis: int) -> DateTimeModel {
    DateTimeModel {
        date: plus_days(t.date, (t.millis + millis) / (MILLIS_PER_DAY as int)),
        millis: (t.millis + millis) % (MILLIS_PER_DAY as int),
    }
}

/// A shift by milliseconds gives the moment whose number is larger by them.
pub proof fn lemma_plus_millis(t: DateTimeModel, millis: int)
    requires
        moment_wf(t),
    ensures
        moment_wf(plus_millis(t, millis)),
        instant(plus_millis(t, millis)) == instant(t) + millis,
{
    let days = (t.millis + millis) / (MILLIS_PER_DAY as int);
    lemma_plus_days_range(t.date, days);
    assert((day_number(t.date) + days) * MILLIS_PER_DAY == day_number(t.date) * MILLIS_PER_DAY
        + days * MILLIS_PER_DAY) by (nonlinear_arith);
}

/// A date with a time of day.
#[derive(Clone, Copy, Debug, PartialEq, Eq, Structural, PartialOrd, Ord, Hash)]
pub struct DateTime {
    date: Date,
    time: Time,
}

impl View for DateTime {
    type V = DateTimeModel;

    closed spec fn view(&self) -> DateTimeModel {
        DateTimeModel { date: self.date@, millis: self.time@ }
    }
}

impl DateTime {
    /// The date exists and can be stored, and the time lies within one day.
    pub open spec fn wf(&self) -> bool {
        moment_wf(self@) && in_calendar_range(self@.date)
    }

    /// Two stored points in time are the same exactly when they model the same.
    pub proof fn lemma_view_injective(a: DateTime, b: DateTime)
        ensures
            a@ == b@ <==> a == b,
    {
        Date::lemma_view_injective(a.date, b.date);
        Time::lemma_view_injective(a.time, b.time);
    }

    /// Among well-formed points in time, the earlier one has the smaller number.
    pub proof fn lemma_instant_order(a: DateTime, b: DateTime)
        requires
            a.wf(),
            b.wf(),
        ensures
            instant(a@) < instant(b@) <==> date_lt(a@.date, b@.date) || (a@.date == b@.date
                && a@.millis < b@.millis),
            instant(a@) == instant(b@) <==> a@ == b@,
            MIN_DAY_NUMBER * MILLIS_PER_DAY <= instant(a@) < (MAX_DAY_NUMBER + 1) * MILLIS_PER_DAY,
    {
        lemma_day_number_order(a@.date, b@.date);
        lemma_calendar_range(a@.date);
    }

    /// Whether the moment `length` after `self` can be stored.
    pub fn can_add_duration(&self, length: Duration) -> (fits: bool)
        requires
            self.wf(),
        ensures
            fits == in_calendar_range(plus_millis(self@, length@).date),
    {
        proof {
            lemma_calendar_range(self@.date);
        }
        let within: i64 = self.time.num_milliseconds_from_midnight() as i64;
        let millis: i64 = length.num_milliseconds();
        // Days are counted from the earliest day, so that division rounds down.
        let base: i64 = self.date.num_days_from_ce() - MIN_DAY_NUMBER;
        if millis < -200_000_000 * MILLIS_PER_DAY || millis > 200_000_000 * MILLIS_PER_DAY {
            proof {
                lemma_day_count(within as int + millis);
                lemma_plus_days_range(self@.date, (within + millis) / (MILLIS_PER_DAY as int));
            }
            return false;
        }
        let total: i64 = base * MILLIS_PER_DAY + within + millis;
        proof {
            lemma_day_count(within as int + millis);
            lemma_day_count(total as int);
            lemma_shifted_day_count(within as int + millis, base as int);
            lemma_plus_days_range(self@.date, (within + millis) / (MILLIS_PER_DAY as int));
        }
        0 <= total && total / MILLIS_PER_DAY <= MAX_DAY_NUMBER - MIN_DAY_NUMBER
    }

    /// The moment `length` after `self`; before it, for a negative length.
    pub fn add_duration(&self, length: Duration) -> (moment: DateTime)
        requires
            self.wf(),
            in_calendar_range(plus_millis(self@, length@).date),
        ensures
            moment.wf(),
            moment@ == plus_millis(self@, length@),
            instant(moment@) == instant(self@) + length@,
    {
        proof {
            lemma_calendar_range(self@.date);
            lemma_plus_millis(self@, length@);
            lemma_day_count(self@.millis + length@);
            lemma_plus_days_range(self@.date, (self@.millis + length@) / (MILLIS_PER_DAY as int));
        }
        let within: i64 = self.time.num_milliseconds_from_midnight() as i64;
        let millis: i64 = length.num_milliseconds();
        let base: i64 = self.date.num_days_from_ce() - MIN_DAY_NUMBER;
        let total: i64 = base * MILLIS_PER_DAY + within + millis;
        proof {
            lemma_day_count(total as int);
            lemma_shifted_day_count(within as int + millis, base as int);
        }
        let days: i64 = total / MILLIS_PER_DAY - base;
        let rest: i64 = total % MILLIS_PER_DAY;
        DateTime { date: add_days(self.date, days), time: Time { millis: rest as u32 } }
    }

    /// The time `time` on the date `date`.
    pub fn new(date: Date, time: Time) -> (moment: DateTime)
        ensures
            moment@ == (DateTimeModel { date: date@, millis: time@ }),
            date.wf() && time.wf() ==> moment.wf(),
    {
        DateTime { date, time }
    }

    /// The date.
    pub fn date(&self) -> (date: Date)
        ensures
            date@ == self@.date,
            self.wf() ==> date.wf(),
    {
        self.date
    }

    /// The time of day.
    pub fn time(&self) -> (time: Time)
        ensures
            time@ == self@.millis,
            self.wf() ==> time.wf(),
    {
        self.time
    }

    /// Whether `self` is strictly earlier than `other`.
    pub fn is_before(&self, other: &DateTime) -> (earlier: bool)
        requires
            self.wf(),
            other.wf(),
        ensures
            earlier == (instant(self@) < instant(other@)),
    {
        proof {
            DateTime::lemma_instant_order(*self, *other);
            Date::lemma_view_injective(self.date, other.date);
        }
        self.date.is_before(&other.date) || (self.date == other.date && self.time.is_before(
            &other.time,
        ))
    }

    /// Whether `self` is `other` or earlier.
    pub fn is_on_or_before(&self, other: &DateTime) -> (not_later: bool)
        requires
            self.wf(),
            other.wf(),
        ensures
            not_later == (instant(self@) <= instant(other@)),
    {
        proof {
            DateTime::lemma_instant_order(*self, *other);
            DateTime::lemma_instant_order(*other, *self);
        }
        !other.is_before(self)
    }

    /// The time that has passed from `earlier` to `self`; negative where
    /// `earlier` is in fact the later one.
    pub fn signed_duration_since(&self, earlier: &DateTime) -> (length: Duration)
        requires
            self.wf(),
            earlier.wf(),
        ensures
            length@ == instant(self@) - instant(earlier@),
    {
        let days: i64 = self.date.num_days_from_ce() - earlier.date.num_days_from_ce();
        let within: i64 = self.time.num_milliseconds_from_midnight() as i64
            - earlier.time.num_milliseconds_from_midnight() as i64;
        assert(days * MILLIS_PER_DAY == day_number(self@.date) * MILLIS_PER_DAY - day_number(
            earlier@.date,
        ) * MILLIS_PER_DAY) by (nonlinear_arith)
            requires
                days == day_number(self@.date) - day_number(earlier@.date),
        ;
        assert(-200_000_000 * MILLIS_PER_DAY <= days * MILLIS_PER_DAY <= 200_000_000
            * MILLIS_PER_DAY) by (nonlinear_arith)
            requires
                -200_000_000 <= days <= 200_000_000,
        ;
        Duration::milliseconds(days * MILLIS_PER_DAY + within)
    }
}

/// Bounds of the number of whole days in a count of milliseconds.
proof fn lemma_day_count(millis: int)
    ensures
        (millis / (MILLIS_PER_DAY as int)) * MILLIS_PER_DAY <= millis < (millis / (
        MILLIS_PER_DAY as int) + 1) * MILLIS_PER_DAY,
        0 <= millis % (MILLIS_PER_DAY as int) < MILLIS_PER_DAY,
        millis == (millis / (MILLIS_PER_DAY as int)) * MILLIS_PER_DAY + millis % (
        MILLIS_PER_DAY as int),
{
}

/// Adding whole days to a count of milliseconds adds them to its number
/// of days and leaves the rest of the day as it is.
proof fn lemma_shifted_day_count(millis: int, days: int)
    ensures
        (days * MILLIS_PER_DAY + millis) / (MILLIS_PER_DAY as int) == days + millis / (
        MILLIS_PER_DAY as int),
        (days * MILLIS_PER_DAY + millis) % (MILLIS_PER_DAY as int) == millis % (
        MILLIS_PER_DAY as int),
{
    lemma_fundamental_div_mod_converse(
        days * MILLIS_PER_DAY + millis,
        MILLIS_PER_DAY as int,
        days + millis / (MILLIS_PER_DAY as int),
        millis % (MILLIS_PER_DAY as int),
    );
}

} // verus!
