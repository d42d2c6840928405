//! A span of dates with a cadence, and the operations that look at it or
//! walk from it to its neighbours.

use vstd::prelude::*;

use crate::calendar::{
    date_le, in_calendar_range, lemma_calendar_range, lemma_day_number_order,
    lemma_plus_one_day, CivilDate, MAX_DAY_NUMBER, MIN_DAY_NUMBER,
};
use crate::date::Date;
use crate::dateutils::{add_days, can_add_days, can_add_months, first_day_of_month};
use crate::daterange::annual_date_range::AnnualDateRange;
use crate::daterange::monthly_date_range::MonthlyDateRange;
use crate::daterange::quarterly_date_range::QuarterlyDateRange;
use crate::daterange::semi_annual_date_range::SemiAnnualDateRange;
use crate::daterange::semi_monthly_date_range::SemiMonthlyDateRange;
use crate::daterange::error::RangeError;
use crate::daterange::model::{
    contains_date_spec, contains_range_spec, fixed_length_next, fixed_length_prior, in_bounds,
    length_in_days, model_wf, next_of, overlaps_spec, prior_of, Cadence, RangeModel,
};
use crate::daterange::steps::{lemma_fixed_length_step, lemma_next_wf, lemma_prior_wf};

verus! {

/// An inclusive span of dates that knows its cadence. A range is a plain
/// value: every operation that walks to another range returns a new one.
#[derive(Clone, Copy, Debug)]
pub struct DateRange {
    start_date: Date,
    end_date: Date,
    len: usize,
    cadence: Cadence,
}

impl View for DateRange {
    type V = RangeModel;

    closed spec fn view(&self) -> RangeModel {
        RangeModel { start: self.start_date@, end: self.end_date@, cadence: self.cadence }
    }
}

impl DateRange {
    /// The stored length.
    pub closed spec fn spec_len(&self) -> usize {
        self.len
    }

    /// The boundary dates exist, can be stored, are in order and fit the
    /// cadence, and the stored length is the number of days they span.
    pub open spec fn wf(&self) -> bool {
        &&& model_wf(self@)
        &&& in_bounds(self@)
        &&& self.spec_len() == length_in_days(self@)
    }

    /// The range from `start_date` to `end_date` with the arbitrary cadence,
    /// unless the end lies before the start.
    pub fn new(start_date: Date, end_date: Date) -> (range: Result<DateRange, RangeError>)
        requires
            start_date.wf(),
            end_date.wf(),
        ensures
            range.is_ok() <==> date_le(start_date@, end_date@),
            range.is_err() ==> range == Err::<DateRange, RangeError>(RangeError::InvalidRange),
            range.is_ok() ==> range.unwrap().wf() && range.unwrap()@ == (RangeModel {
                start: start_date@,
                end: end_date@,
                cadence: Cadence::Arbitrary,
            }),
    {
        if !start_date.is_on_or_before(&end_date) {
            return Err(RangeError::InvalidRange);
        }
        Ok(DateRange::assemble(start_date, end_date, Cadence::Arbitrary))
    }

    /// The range from `start_date` to `end_date` with the given cadence.
    pub(crate) fn assemble(start_date: Date, end_date: Date, cadence: Cadence) -> (range:
        DateRange)
        requires
            start_date.wf(),
            end_date.wf(),
            model_wf(RangeModel { start: start_date@, end: end_date@, cadence }),
        ensures
            range.wf(),
            range@ == (RangeModel { start: start_date@, end: end_date@, cadence }),
    {
        proof {
            lemma_day_number_order(start_date@, end_date@);
        }
        let days: i64 = end_date.num_days_from_ce() - start_date.num_days_from_ce();
        DateRange { start_date, end_date, len: (days + 1) as usize, cadence }
    }

    /// The first date of the range.
    pub fn start_date(&self) -> (date: Date)
        ensures
            date@ == self@.start,
            self.wf() ==> date.wf(),
    {
        self.start_date
    }

    /// The last date of the range.
    pub fn end_date(&self) -> (date: Date)
        ensures
            date@ == self@.end,
            self.wf() ==> date.wf(),
    {
        self.end_date
    }

    /// The number of days in the range, both boundary dates included.
    pub fn len(&self) -> (days: usize)
        requires
            self.wf(),
        ensures
            days == length_in_days(self@),
            1 <= days <= MAX_DAY_NUMBER - MIN_DAY_NUMBER + 1,
    {
        proof {
            lemma_day_number_order(self@.start, self@.end);
            lemma_calendar_range(self@.start);
            lemma_calendar_range(self@.end);
        }
        self.len
    }

    /// The cadence of the range.
    pub fn cadence(&self) -> (cadence: Cadence)
        ensures
            cadence == self@.cadence,
    {
        self.cadence
    }

    /// The start day of a monthly range; `None` for every other cadence.
    pub fn start_day(&self) -> (day: Option<usize>)
        ensures
            day == match self@.cadence {
                Cadence::Monthly { start_day } => Some(start_day),
                _ => None,
            },
    {
        match self.cadence {
            Cadence::Monthly { start_day } => Some(start_day),
            _ => None,
        }
    }

    /// Whether `date` lies in the range.
    pub fn contains_date(&self, date: Date) -> (inside: bool)
        requires
            self.wf(),
        ensures
            inside == contains_date_spec(self@, date@),
    {
        self.start_date().is_on_or_before(&date) && date.is_on_or_before(&self.end_date())
    }

    /// Whether `date_range` lies in this range with both its boundaries.
    pub fn contains_range(&self, date_range: &DateRange) -> (inside: bool)
        requires
            self.wf(),
            date_range.wf(),
        ensures
            inside == contains_range_spec(self@, date_range@),
    {
        self.start_date().is_on_or_before(&date_range.start_date())
            && date_range.end_date().is_on_or_before(&self.end_date())
    }

    /// Whether the two ranges share at least one date.
    pub fn overlaps(&self, date_range: &DateRange) -> (shared: bool)
        requires
            self.wf(),
            date_range.wf(),
        ensures
            shared == overlaps_spec(self@, date_range@),
    {
        self.start_date().is_on_or_before(&date_range.end_date())
            && date_range.start_date().is_on_or_before(&self.end_date())
    }

    /// The range with the cadence of this one and the given boundaries.
    fn create_new_date_range(&self, start: Date, end: Date) -> (range: DateRange)
        requires
            start.wf(),
            end.wf(),
            model_wf(RangeModel { start: start@, end: end@, cadence: self@.cadence }),
        ensures
            range.wf(),
            range@ == (RangeModel { start: start@, end: end@, cadence: self@.cadence }),
    {
        DateRange::assemble(start, end, self.cadence)
    }

    /// Whether the range that follows this one can be stored, so that
    /// `next` may be called.
    pub fn can_next(&self) -> (fits: bool)
        requires
            self.wf(),
        ensures
            fits == in_bounds(next_of(self@)),
    {
        proof {
            reveal(next_of);
            lemma_next_wf(self@);
            lemma_step_between(self@.start, next_of(self@).end, next_of(self@).start);
            lemma_plus_one_day(self@.end);
        }
        let end = self.end_date;
        match self.cadence {
            Cadence::SemiMonthly => end.day() == 15 || can_add_months(first_day_of_month(end), 1),
            Cadence::Monthly { start_day } => if start_day == 1 {
                can_add_days(end, 1)
            } else {
                can_add_months(end, 1)
            },
            Cadence::Quarterly => can_add_months(first_day_of_month(end), 3),
            Cadence::SemiAnnual => can_add_months(end, 6),
            Cadence::Annual => can_add_months(end, 12),
            _ => can_add_days(end, self.len() as i64),
        }
    }

    /// Whether the range that precedes this one can be stored, so that
    /// `prior` may be called.
    pub fn can_prior(&self) -> (fits: bool)
        requires
            self.wf(),
        ensures
            fits == in_bounds(prior_of(self@)),
    {
        proof {
            reveal(prior_of);
            lemma_prior_wf(self@);
            lemma_step_between(prior_of(self@).start, self@.end, prior_of(self@).end);
            lemma_plus_one_day(self@.start);
        }
        let start = self.start_date;
        match self.cadence {
            Cadence::SemiMonthly => start.day() == 16 || can_add_days(start, -1),
            Cadence::Monthly { start_day } => if start_day == 1 {
                can_add_days(start, -1)
            } else {
                can_add_months(start, -1)
            },
            Cadence::Quarterly => can_add_months(start, -3),
            Cadence::SemiAnnual => can_add_months(start, -6),
            Cadence::Annual => can_add_months(start, -12),
            _ => can_add_days(start, -(self.len() as i64)),
        }
    }

    /// The range that follows this one in its cadence.
    pub fn next(&self) -> (following: DateRange)
        requires
            self.wf(),
            in_bounds(next_of(self@)),
        ensures
            following.wf(),
            following@ == next_of(self@),
    {
        proof {
            reveal(next_of);
        }
        match self.cadence {
            Cadence::SemiMonthly => SemiMonthlyDateRange::next(self),
            Cadence::Monthly { start_day } => MonthlyDateRange::next(self),
            Cadence::Quarterly => QuarterlyDateRange::next(self),
            Cadence::SemiAnnual => SemiAnnualDateRange::next(self),
            Cadence::Annual => AnnualDateRange::next(self),
            _ => self.shifted_by_length(true),
        }
    }

    /// The range that precedes this one in its cadence.
    pub fn prior(&self) -> (preceding: DateRange)
        requires
            self.wf(),
            in_bounds(prior_of(self@)),
        ensures
            preceding.wf(),
            preceding@ == prior_of(self@),
    {
        proof {
            reveal(prior_of);
        }
        match self.cadence {
            Cadence::SemiMonthly => SemiMonthlyDateRange::prior(self),
            Cadence::Monthly { start_day } => MonthlyDateRange::prior(self),
            Cadence::Quarterly => QuarterlyDateRange::prior(self),
            Cadence::SemiAnnual => SemiAnnualDateRange::prior(self),
            Cadence::Annual => AnnualDateRange::prior(self),
            _ => self.shifted_by_length(false),
        }
    }

    /// The step of the cadences of fixed length: the range moved by its
    /// own length, forward or backward.
    fn shifted_by_length(&self, forward: bool) -> (moved: DateRange)
        requires
            self.wf(),
            self@.cadence == Cadence::Arbitrary || self@.cadence == Cadence::Weekly
                || self@.cadence == Cadence::BiWeekly,
            forward ==> in_bounds(fixed_length_next(self@)),
            !forward ==> in_bounds(fixed_length_prior(self@)),
        ensures
            moved.wf(),
            forward ==> moved@ == fixed_length_next(self@),
            !forward ==> moved@ == fixed_length_prior(self@),
    {
        proof {
            lemma_fixed_length_step(self@);
        }
        let days = if forward {
            self.len() as i64
        } else {
            -(self.len() as i64)
        };
        self.create_new_date_range(
            add_days(self.start_date(), days),
            add_days(self.end_date(), days),
        )
    }
}

/// A date between two dates that can be stored can be stored itself.
proof fn lemma_step_between(low: CivilDate, high: CivilDate, middle: CivilDate)
    ensures
        in_calendar_range(low) && in_calendar_range(high) && date_le(low, middle) && date_le(
            middle,
            high,
        ) ==> in_calendar_range(middle),
{
}

} // verus!
