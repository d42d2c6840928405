//! A range between two points in time that is divided into periods of a
//! fixed number of minutes.

use vstd::prelude::*;
use vstd::std_specs::cmp::PartialEqSpecImpl;

use crate::calendar::{date_lt, in_calendar_range};
use crate::datetimerange::date_time_range::{span_millis, DateTimeRange, DateTimeRangeModel};
use crate::time::{instant, moment_wf, plus_millis, trunc_div, DateTime, DateTimeModel, Duration};

verus! {

/// Minutes in an hour.
pub const MINUTES_PER_HOUR: i32 = 60;

/// Minutes in a day.
pub const MINUTES_PER_DAY: i32 = 1440;

/// Whole minutes since midnight of a point in time.
pub open spec fn minute_of_day(t: DateTimeModel) -> int {
    t.millis / 60_000
}

/// A range divided into periods, as mathematics.
pub struct PeriodRangeModel {
    pub range: DateTimeRangeModel,
    pub period_minutes: int,
}

/// Number of the period in which the range starts, counted from midnight
/// of its first day.
pub open spec fn start_index_of(r: PeriodRangeModel) -> int {
    trunc_div(minute_of_day(r.range.start), r.period_minutes)
}

/// Number of the period in which the range ends, counted from midnight of
/// its first day; an end on a later date counts as one day later.
pub open spec fn end_index_of(r: PeriodRangeModel) -> int {
    trunc_div(
        minute_of_day(r.range.end) + if date_lt(r.range.start.date, r.range.end.date) {
            1440int
        } else {
            0int
        },
        r.period_minutes,
    )
}

/// Whole minutes from the start of the range to its end, rounded towards
/// zero and cut to 32 bits.
pub open spec fn shift_minutes(r: PeriodRangeModel) -> i32 {
    trunc_div(span_millis(r.range), 60_000) as i32
}

/// A range between two points in time with the length of its periods in minutes.
#[derive(Clone, Copy, Debug)]
pub struct DateTimeRangeWithPeriodLength {
    date_time_range: DateTimeRange,
    period_length_minutes: i32,
}

impl View for DateTimeRangeWithPeriodLength {
    type V = PeriodRangeModel;

    closed spec fn view(&self) -> PeriodRangeModel {
        PeriodRangeModel {
            range: self.date_time_range@,
            period_minutes: self.period_length_minutes as int,
        }
    }
}

impl PartialEq for DateTimeRangeWithPeriodLength {
    /// Two divided ranges are equal when their ranges are, whatever their periods.
    fn eq(&self, other: &Self) -> (equal: bool) {
        proof {
            DateTimeRange::lemma_view_injective(self.date_time_range, other.date_time_range);
        }
        self.date_time_range == other.date_time_range
    }
}

impl PartialEqSpecImpl for DateTimeRangeWithPeriodLength {
    open spec fn obeys_eq_spec() -> bool {
        true
    }

    open spec fn eq_spec(&self, other: &Self) -> bool {
        self@.range == other@.range
    }
}

impl Eq for DateTimeRangeWithPeriodLength {

}

impl DateTimeRangeWithPeriodLength {
    /// The boundaries of the range are points in time that exist and can be stored.
    pub open spec fn wf(&self) -> bool {
        &&& moment_wf(self@.range.start)
        &&& moment_wf(self@.range.end)
        &&& in_calendar_range(self@.range.start.date)
        &&& in_calendar_range(self@.range.end.date)
        &&& i32::MIN <= self@.period_minutes <= i32::MAX
    }

    /// The range `date_time_range` divided into periods of `period_length_minutes` minutes.
    pub fn of(date_time_range: DateTimeRange, period_length_minutes: i32) -> (divided: Self)
        ensures
            divided@ == (PeriodRangeModel {
                range: date_time_range@,
                period_minutes: period_length_minutes as int,
            }),
            date_time_range.wf() ==> divided.wf(),
    {
        Self { date_time_range, period_length_minutes }
    }

    /// The range from `start` to `end` divided into periods of
    /// `period_length_minutes` minutes.
    pub fn of_datetimes(start: DateTime, end: DateTime, period_length_minutes: i32) -> (divided:
        Self)
        ensures
            divided@ == (PeriodRangeModel {
                range: DateTimeRangeModel { start: start@, end: end@ },
                period_minutes: period_length_minutes as int,
            }),
            start.wf() && end.wf() ==> divided.wf(),
    {
        Self::of(DateTimeRange::of(start, end), period_length_minutes)
    }

    /// Number of the period in which the range starts.
    pub fn start_index(&self) -> (index: i32)
        requires
            self.wf(),
            self@.period_minutes != 0,
        ensures
            index == start_index_of(self@),
    {
        let start = self.date_time_range.start();
        let time = start.time();
        let minutes: i32 = time.hour() as i32 * MINUTES_PER_HOUR + time.minute() as i32;
        proof {
            lemma_minute_of_day(start@);
            lemma_quotient_bound(minutes as int, self@.period_minutes);
        }
        minutes / self.period_length_minutes
    }

    /// Number of the period in which the range ends.
    pub fn end_index(&self) -> (index: i32)
        requires
            self.wf(),
            self@.period_minutes != 0,
        ensures
            index == end_index_of(self@),
            -2880 < index < 2880,
    {
        let start = self.date_time_range.start();
        let end = self.date_time_range.end();
        let time = end.time();
        let mut end_index: i32 = time.hour() as i32 * MINUTES_PER_HOUR + time.minute() as i32;
        proof {
            lemma_minute_of_day(end@);
        }
        if start.date().is_before(&end.date()) {
            end_index += MINUTES_PER_DAY;
        }
        proof {
            lemma_quotient_bound(end_index as int, self@.period_minutes);
        }
        end_index / self.period_length_minutes
    }

    /// The length of a period in minutes.
    pub fn period_length_in_minutes(&self) -> (minutes: i32)
        ensures
            minutes == self@.period_minutes,
    {
        self.period_length_minutes
    }

    /// The range that is divided.
    pub fn date_time_range(&self) -> (range: &DateTimeRange)
        ensures
            range@ == self@.range,
            self.wf() ==> range.wf(),
    {
        &self.date_time_range
    }

    /// Numbers of the first and of the last period of the range.
    pub fn index_range(&self) -> (indices: (i32, i32))
        requires
            self.wf(),
            self@.period_minutes != 0,
        ensures
            indices.0 == start_index_of(self@),
            indices.1 == end_index_of(self@) - 1,
    {
        (self.start_index(), self.end_index() - 1)
    }

    /// Number of whole periods from the start of the range to its end.
    pub fn number_of_periods_in_shift(&self) -> (periods: i32)
        requires
            self.wf(),
            self@.period_minutes != 0,
            !(shift_minutes(self@) == i32::MIN && self@.period_minutes == -1),
        ensures
            periods == trunc_div(shift_minutes(self@) as int, self@.period_minutes),
    {
        let minutes: i64 = self.date_time_range.duration().num_minutes();
        let cut: i32 = #[verifier::truncate]
        (minutes as i32);
        proof {
            lemma_quotient_bound(cut as int, self@.period_minutes);
        }
        cut / self.period_length_minutes
    }
}

/// A walk through a range in steps, as mathematics: the point in time
/// that comes next, if the walk can still go on, the end of the range,
/// and the length of a step in milliseconds.
pub struct PeriodWalk {
    pub pending: Option<DateTimeModel>,
    pub end: DateTimeModel,
    pub step: int,
}

/// What the walk gives next: the pending point in time, unless it lies
/// after the end of the range.
pub open spec fn walk_item(w: PeriodWalk) -> Option<DateTimeModel> {
    match w.pending {
        Some(t) => if instant(t) <= instant(w.end) {
            Some(t)
        } else {
            None
        },
        None => None,
    }
}

/// The walk after it has given its next item: it has moved on by one
/// step, and has come to its end where that step leaves the calendar. A
/// walk that gives nothing stays as it is.
pub open spec fn walk_rest(w: PeriodWalk) -> PeriodWalk {
    match walk_item(w) {
        Some(t) => PeriodWalk {
            pending: if in_calendar_range(plus_millis(t, w.step).date) {
                Some(plus_millis(t, w.step))
            } else {
                None
            },
            end: w.end,
            step: w.step,
        },
        None => w,
    }
}

/// Walks through the points in time of a range, one period apart.
pub struct DateTimeRangeIterator {
    current: DateTime,
    end: DateTime,
    step: Duration,
    finished: bool,
}

impl View for DateTimeRangeIterator {
    type V = PeriodWalk;

    closed spec fn view(&self) -> PeriodWalk {
        PeriodWalk {
            pending: if self.finished {
                None
            } else {
                Some(self.current@)
            },
            end: self.end@,
            step: self.step@,
        }
    }
}

impl DateTimeRangeIterator {
    /// The end of the range, and the pending point in time if there is
    /// one, exist and can be stored.
    pub closed spec fn wf(&self) -> bool {
        self.end.wf() && (!self.finished ==> self.current.wf())
    }

    /// A walk through `range` in steps of `period_minutes` minutes.
    fn new(range: &DateTimeRange, period_minutes: i32) -> (walk: Self)
        requires
            range.wf(),
        ensures
            walk.wf(),
            walk@ == (PeriodWalk {
                pending: Some(range@.start),
                end: range@.end,
                step: period_minutes * 60_000,
            }),
    {
        Self {
            current: range.start(),
            end: range.end(),
            step: Duration::milliseconds(period_minutes as i64 * 60_000),
            finished: false,
        }
    }

    /// The next point in time of the walk, or `None` when the walk has
    /// passed the end of the range.
    pub fn next(&mut self) -> (item: Option<DateTime>)
        requires
            old(self).wf(),
        ensures
            final(self).wf(),
            final(self)@ == walk_rest(old(self)@),
            item is Some <==> walk_item(old(self)@) is Some,
            item matches Some(moment) ==> moment.wf() && Some(moment@) == walk_item(old(self)@),
    {
        if self.finished || self.end.is_before(&self.current) {
            None
        } else {
            let result = self.current;
            if self.current.can_add_duration(self.step) {
                self.current = self.current.add_duration(self.step);
            } else {
                self.finished = true;
            }
            Some(result)
        }
    }
}

impl DateTimeRangeWithPeriodLength {
    /// A walk through the range that starts at its start and goes on by
    /// one period at a time.
    pub fn into_iter(self) -> (walk: DateTimeRangeIterator)
        requires
            self.wf(),
        ensures
            walk.wf(),
            walk@ == (PeriodWalk {
                pending: Some(self@.range.start),
                end: self@.range.end,
                step: self@.period_minutes * 60_000,
            }),
    {
        DateTimeRangeIterator::new(&self.date_time_range, self.period_length_minutes)
    }
}

/// The hour and the minute of a time of day make up its minute of the day.
proof fn lemma_minute_of_day(t: DateTimeModel)
    requires
        moment_wf(t),
    ensures
        (t.millis / 3_600_000) * 60 + (t.millis / 60_000) % 60 == minute_of_day(t),
        0 <= minute_of_day(t) < 1440,
{
}

/// A quotient that is rounded towards zero is no further from zero than
/// what is divided.
proof fn lemma_quotient_bound(a: int, b: int)
    requires
        b != 0,
    ensures
        a >= 0 ==> -a <= trunc_div(a, b) <= a,
        a < 0 ==> a <= trunc_div(a, b) <= -a,
        a < 0 && b != -1 ==> trunc_div(a, b) < -a,
{
    if a >= 0 {
        lemma_euclid_bound(a, b);
    } else {
        lemma_euclid_bound(-a, b);
        if b != -1 {
            assert((-a) / b > a) by (nonlinear_arith)
                requires
                    a < 0,
                    b != 0,
                    b != -1,
            ;
        }
    }
}

/// The quotient of a number that is not negative is no further from zero
/// than the number.
proof fn lemma_euclid_bound(a: int, b: int)
    requires
        a >= 0,
        b != 0,
    ensures
        -a <= a / b <= a,
{
    assert(-a <= a / b <= a) by (nonlinear_arith)
        requires
            a >= 0,
            b != 0,
    ;
}

} // verus!
