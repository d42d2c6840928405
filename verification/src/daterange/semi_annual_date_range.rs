//! Ranges of six months.

use vstd::prelude::*;

use crate::calendar::{
    in_calendar_range, lemma_next_day, lemma_plus_months_direction, lemma_plus_months_valid,
    lemma_previous_day, next_day, plus_months, previous_day, CivilDate,
};
use crate::date::Date;
use crate::dateutils::{add_months, day_after, day_before, subtract_months};
use crate::daterange::date_range::DateRange;
use crate::daterange::model::{in_bounds, semi_annual_step, Cadence, RangeModel};
use crate::daterange::steps::lemma_months_step;

verus! {

/// The six months that start on `start`: up to the day before the date
/// six months later.
pub open spec fn half_year_starting(start: CivilDate) -> RangeModel {
    RangeModel {
        start,
        end: previous_day(plus_months(start, 6)),
        cadence: Cadence::SemiAnnual,
    }
}

/// The six months that end on `end`: from the day after the date six
/// months earlier.
pub open spec fn half_year_ending(end: CivilDate) -> RangeModel {
    RangeModel { start: next_day(plus_months(end, -6)), end, cadence: Cadence::SemiAnnual }
}

/// Constructor and steps of semi-annual ranges.
pub struct SemiAnnualDateRange;

impl SemiAnnualDateRange {
    /// The six months that start on `start_date`.
    pub fn with_start_date(start_date: Date) -> (range: DateRange)
        requires
            start_date.wf(),
            in_calendar_range(plus_months(start_date@, 6)),
        ensures
            range.wf(),
            range@ == half_year_starting(start_date@),
    {
        proof {
            lemma_plus_months_valid(start_date@, 6);
            lemma_plus_months_direction(start_date@, 6);
            lemma_previous_day(plus_months(start_date@, 6));
        }
        let end_date = day_before(add_months(start_date, 6));
        DateRange::assemble(start_date, end_date, Cadence::SemiAnnual)
    }

    /// The six months that end on `end_date`.
    pub fn with_end_date(end_date: Date) -> (range: DateRange)
        requires
            end_date.wf(),
            in_calendar_range(plus_months(end_date@, -6)),
        ensures
            range.wf(),
            range@ == half_year_ending(end_date@),
    {
        proof {
            lemma_plus_months_valid(end_date@, -6);
            lemma_plus_months_direction(end_date@, -6);
            lemma_next_day(plus_months(end_date@, -6));
        }
        let start_date = day_after(subtract_months(end_date, 6));
        DateRange::assemble(start_date, end_date, Cadence::SemiAnnual)
    }

    /// The range six months before `date_range`.
    pub fn prior(date_range: &DateRange) -> (preceding: DateRange)
        requires
            date_range.wf(),
            in_bounds(semi_annual_step(date_range@, -6)),
        ensures
            preceding.wf(),
            preceding@ == semi_annual_step(date_range@, -6),
    {
        proof {
            lemma_months_step(date_range@, -6);
        }
        let start = subtract_months(date_range.start_date(), 6);
        let end = subtract_months(date_range.end_date(), 6);
        DateRange::assemble(start, end, Cadence::SemiAnnual)
    }

    /// The range six months after `date_range`.
    pub fn next(date_range: &DateRange) -> (following: DateRange)
        requires
            date_range.wf(),
            in_bounds(semi_annual_step(date_range@, 6)),
        ensures
            following.wf(),
            following@ == semi_annual_step(date_range@, 6),
    {
        proof {
            lemma_months_step(date_range@, 6);
        }
        let start = add_months(date_range.start_date(), 6);
        let end = add_months(date_range.end_date(), 6);
        DateRange::assemble(start, end, Cadence::SemiAnnual)
    }
}

} // verus!
