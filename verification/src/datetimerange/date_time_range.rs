//! A range between two points in time.

use vstd::prelude::*;

use crate::calendar::{in_calendar_range, next_day, CivilDate};
use crate::date::Date;
use crate::dateutils::{day_after, earliest, latest};
use crate::time::{instant, moment_wf, DateTime, DateTimeModel, Duration, Time};

verus! {

/// A range of points in time as mathematics.
pub struct DateTimeRangeModel {
    pub start: DateTimeModel,
    pub end: DateTimeModel,
}

/// The time from the start of the range to its end, in milliseconds.
pub open spec fn span_millis(r: DateTimeRangeModel) -> int {
    instant(r.end) - instant(r.start)
}

/// The two ranges share a point in time, their boundaries included.
pub open spec fn moments_overlap(a: DateTimeRangeModel, b: DateTimeRangeModel) -> bool {
    instant(a.start) <= instant(b.end) && instant(a.end) >= instant(b.start)
}

/// The range that the two ranges share: from the later of their starts
/// to the earlier of their ends.
pub open spec fn shared_range(a: DateTimeRangeModel, b: DateTimeRangeModel) -> DateTimeRangeModel {
    DateTimeRangeModel {
        start: if instant(a.start) < instant(b.start) {
            b.start
        } else {
            a.start
        },
        end: if instant(b.end) < instant(a.end) {
            b.end
        } else {
            a.end
        },
    }
}

/// The range of the two times on `date`; where the end is the earlier
/// time of day, it lies on the day after.
pub open spec fn times_on_date(start: int, end: int, date: CivilDate) -> DateTimeRangeModel {
    DateTimeRangeModel {
        start: DateTimeModel { date, millis: start },
        end: DateTimeModel {
            date: if end < start {
                next_day(date)
            } else {
                date
            },
            millis: end,
        },
    }
}

/// A range from one point in time to another.
#[derive(Clone, Copy, Debug, PartialEq, Eq, Structural, PartialOrd, Ord, Hash)]
pub struct DateTimeRange {
    start: DateTime,
    end: DateTime,
}

impl View for DateTimeRange {
    type V = DateTimeRangeModel;

    closed spec fn view(&self) -> DateTimeRangeModel {
        DateTimeRangeModel { start: self.start@, end: self.end@ }
    }
}

impl DateTimeRange {
    /// Both boundaries are points in time that exist and can be stored.
    pub open spec fn wf(&self) -> bool {
        &&& moment_wf(self@.start)
        &&& moment_wf(self@.end)
        &&& in_calendar_range(self@.start.date)
        &&& in_calendar_range(self@.end.date)
    }

    /// Two stored ranges are the same exactly when they model the same range.
    pub proof fn lemma_view_injective(a: DateTimeRange, b: DateTimeRange)
        ensures
            a@ == b@ <==> a == b,
    {
        DateTime::lemma_view_injective(a.start, b.start);
        DateTime::lemma_view_injective(a.end, b.end);
    }

    /// The range from `start` to `end`.
    pub fn of(start: DateTime, end: DateTime) -> (range: DateTimeRange)
        ensures
            range@ == (DateTimeRangeModel { start: start@, end: end@ }),
            start.wf() && end.wf() ==> range.wf(),
    {
        Self { start, end }
    }

    /// The range from `start_time` to `end_time` on `date`. Where the end
    /// is the earlier time of day, the range ends on the day after `date`.
    pub fn from_time_range_on_date(start_time: Time, end_time: Time, date: Date) -> (range:
        DateTimeRange)
        requires
            start_time.wf(),
            end_time.wf(),
            date.wf(),
            end_time@ < start_time@ ==> in_calendar_range(next_day(date@)),
        ensures
            range.wf(),
            range@ == times_on_date(start_time@, end_time@, date@),
    {
        if end_time.is_before(&start_time) {
            Self {
                start: DateTime::new(date, start_time),
                end: DateTime::new(day_after(date), end_time),
            }
        } else {
            Self { start: DateTime::new(date, start_time), end: DateTime::new(date, end_time) }
        }
    }

    /// The range from midnight of `date` to midnight of the day after.
    pub fn all_day(date: Date) -> (range: DateTimeRange)
        requires
            date.wf(),
            in_calendar_range(next_day(date@)),
        ensures
            range.wf(),
            range@ == (DateTimeRangeModel {
                start: DateTimeModel { date: date@, millis: 0 },
                end: DateTimeModel { date: next_day(date@), millis: 0 },
            }),
    {
        Self {
            start: DateTime::new(date, Time::midnight()),
            end: DateTime::new(day_after(date), Time::midnight()),
        }
    }

    /// The point in time at which the range starts.
    pub fn start(&self) -> (moment: DateTime)
        ensures
            moment@ == self@.start,
            self.wf() ==> moment.wf(),
    {
        self.start
    }

    /// The point in time at which the range ends.
    pub fn end(&self) -> (moment: DateTime)
        ensures
            moment@ == self@.end,
            self.wf() ==> moment.wf(),
    {
        self.end
    }

    /// The time from the start to the end; negative where the end is the earlier.
    pub fn duration(&self) -> (length: Duration)
        requires
            self.wf(),
        ensures
            length@ == span_millis(self@),
    {
        self.end.signed_duration_since(&self.start)
    }

    /// Whether the two ranges share a point in time, their boundaries included.
    pub fn overlaps(&self, other: &DateTimeRange) -> (shared: bool)
        requires
            self.wf(),
            other.wf(),
        ensures
            shared == moments_overlap(self@, other@),
    {
        self.start.is_on_or_before(&other.end) && other.start.is_on_or_before(&self.end)
    }

    /// Whether the two ranges share more than a boundary.
    pub fn overlaps_exclusive(&self, other: &DateTimeRange) -> (shared: bool)
        requires
            self.wf(),
            other.wf(),
        ensures
            shared == (instant(self@.start) < instant(other@.end) && instant(self@.end) > instant(
                other@.start,
            )),
    {
        self.start.is_before(&other.end) && other.start.is_before(&self.end)
    }

    /// Whether `other` lies in this range with both its boundaries.
    pub fn overlaps_completely(&self, other: &DateTimeRange) -> (inside: bool)
        requires
            self.wf(),
            other.wf(),
        ensures
            inside == (instant(other@.start) >= instant(self@.start) && instant(other@.end)
                <= instant(self@.end)),
    {
        self.start.is_on_or_before(&other.start) && other.end.is_on_or_before(&self.end)
    }

    /// The length of what the two ranges share; zero where they share nothing.
    pub fn overlap_duration(&self, other: &DateTimeRange) -> (length: Duration)
        requires
            self.wf(),
            other.wf(),
        ensures
            length@ == if moments_overlap(self@, other@) {
                span_millis(shared_range(self@, other@))
            } else {
                0
            },
    {
        match self.overlap_range(other) {
            Some(range) => range.duration(),
            None => Duration::milliseconds(0),
        }
    }

    /// The range that the two ranges share; `None` where they share nothing.
    pub fn overlap_range(&self, other: &DateTimeRange) -> (shared: Option<DateTimeRange>)
        requires
            self.wf(),
            other.wf(),
        ensures
            shared is Some <==> moments_overlap(self@, other@),
            shared matches Some(range) ==> range.wf() && range@ == shared_range(self@, other@),
    {
        if !self.overlaps(other) {
            return None;
        }
        let start = latest(self.start, other.start);
        let end = earliest(self.end, other.end);
        Some(Self::of(start, end))
    }

    /// Whether `dt` lies in the range, the boundaries included.
    pub fn contains(&self, dt: DateTime) -> (inside: bool)
        requires
            self.wf(),
            dt.wf(),
        ensures
            inside == (instant(self@.start) <= instant(dt@) <= instant(self@.end)),
    {
        self.start.is_on_or_before(&dt) && dt.is_on_or_before(&self.end)
    }

    /// Whether `dt` lies in the range and is none of its boundaries.
    pub fn contains_exclusive(&self, dt: DateTime) -> (inside: bool)
        requires
            self.wf(),
            dt.wf(),
        ensures
            inside == (instant(self@.start) < instant(dt@) < instant(self@.end)),
    {
        self.start.is_before(&dt) && dt.is_before(&self.end)
    }
}

} // verus!
