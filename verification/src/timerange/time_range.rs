//! A range between two times of day.

use vstd::prelude::*;

use crate::time::{Duration, Time, MILLIS_PER_DAY};

verus! {

/// A range of times as mathematics: milliseconds since midnight of its
/// two boundaries.
pub struct TimeRangeModel {
    pub start: int,
    pub end: int,
}

/// The end of the range as a point of the day that the range reaches: an
/// end at midnight stands for the end of the day.
pub open spec fn effective_end(r: TimeRangeModel) -> int {
    if r.end == 0 {
        MILLIS_PER_DAY as int
    } else {
        r.end
    }
}

/// The two ranges share a point of the day, an end at midnight being
/// taken as the end of the day.
pub open spec fn time_ranges_overlap(a: TimeRangeModel, b: TimeRangeModel) -> bool {
    a.start <= effective_end(b) && b.start <= effective_end(a)
}

/// A range from one time of day to another.
#[derive(Clone, Copy, Debug, PartialEq, Eq, Structural, PartialOrd, Ord, Hash)]
pub struct TimeRange {
    start: Time,
    end: Time,
}

impl View for TimeRange {
    type V = TimeRangeModel;

    closed spec fn view(&self) -> TimeRangeModel {
        TimeRangeModel { start: self.start@, end: self.end@ }
    }
}

impl TimeRange {
    /// Both boundaries lie within one day.
    pub open spec fn wf(&self) -> bool {
        0 <= self@.start < MILLIS_PER_DAY && 0 <= self@.end < MILLIS_PER_DAY
    }

    /// The range from `start` to `end`.
    pub fn of(start: Time, end: Time) -> (range: TimeRange)
        ensures
            range@ == (TimeRangeModel { start: start@, end: end@ }),
            start.wf() && end.wf() ==> range.wf(),
    {
        Self { start, end }
    }

    /// The time at which the range starts.
    pub fn start(&self) -> (time: Time)
        ensures
            time@ == self@.start,
    {
        self.start
    }

    /// The time at which the range ends.
    pub fn end(&self) -> (time: Time)
        ensures
            time@ == self@.end,
    {
        self.end
    }

    /// The time from the start to the end; negative where the end is the
    /// earlier time of day.
    pub fn duration(&self) -> (length: Duration)
        ensures
            length@ == self@.end - self@.start,
    {
        Duration::milliseconds(
            self.end.num_milliseconds_from_midnight() as i64
                - self.start.num_milliseconds_from_midnight() as i64,
        )
    }

    /// Whether the two ranges share a point of the day. A range that ends
    /// at midnight reaches to the end of the day.
    pub fn overlaps(&self, other: &TimeRange) -> (shared: bool)
        requires
            self.wf(),
            other.wf(),
        ensures
            shared == time_ranges_overlap(self@, other@),
    {
        let midnight = Time::midnight();
        proof {
            Time::lemma_view_injective(self.end, midnight);
            Time::lemma_view_injective(other.end, midnight);
        }
        if self.end == midnight && other.end == midnight {
            return true;
        }
        if self.end == midnight {
            return self.start.is_on_or_before(&other.end);
        }
        if other.end == midnight {
            return other.start.is_on_or_before(&self.end);
        }
        self.start.is_on_or_before(&other.end) && other.start.is_on_or_before(&self.end)
    }
}

} // verus!
