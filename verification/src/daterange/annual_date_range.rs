//! Ranges of one year.

use vstd::prelude::*;

use crate::calendar::{
    in_calendar_range, lemma_next_day, lemma_plus_months_direction, lemma_plus_months_valid,
    lemma_previous_day, next_day, plus_months, previous_day, CivilDate,
};
use crate::date::Date;
use crate::dateutils::{add_years, day_after, day_before, subtract_years};
use crate::daterange::date_range::DateRange;
use crate::daterange::model::{annual_step, in_bounds, Cadence, RangeModel};
use crate::daterange::steps::lemma_months_step;

verus! {

/// The year that starts on `start`. It ends on the day before the same
/// date of the next year; a year that starts on February 29 ends on
/// February 28 of the next year.
pub open spec fn year_starting(start: CivilDate) -> RangeModel {
    let anniversary = plus_months(start, 12);
    RangeModel {
        start,
        end: if anniversary.day == start.day {
            previous_day(anniversary)
        } else {
            anniversary
        },
        cadence: Cadence::Annual,
    }
}

/// The year that ends on `end`: from the day after the same date of the
/// year before.
pub open spec fn year_ending(end: CivilDate) -> RangeModel {
    RangeModel { start: next_day(plus_months(end, -12)), end, cadence: Cadence::Annual }
}

/// Constructor and steps of annual ranges.
pub struct AnnualDateRange;

impl AnnualDateRange {
    /// The year that starts on `start_date`.
    pub fn with_start_date(start_date: Date) -> (range: DateRange)
        requires
            start_date.wf(),
            in_calendar_range(plus_months(start_date@, 12)),
        ensures
            range.wf(),
            range@ == year_starting(start_date@),
    {
        proof {
            lemma_plus_months_valid(start_date@, 12);
            lemma_plus_months_direction(start_date@, 12);
            lemma_previous_day(plus_months(start_date@, 12));
        }
        let anniversary = add_years(start_date, 1);
        let end_date = if anniversary.day() == start_date.day() {
            day_before(anniversary)
        } else {
            anniversary
        };
        DateRange::assemble(start_date, end_date, Cadence::Annual)
    }

    /// The year that ends on `end_date`.
    pub fn with_end_date(end_date: Date) -> (range: DateRange)
        requires
            end_date.wf(),
            in_calendar_range(plus_months(end_date@, -12)),
        ensures
            range.wf(),
            range@ == year_ending(end_date@),
    {
        proof {
            lemma_plus_months_valid(end_date@, -12);
            lemma_plus_months_direction(end_date@, -12);
            lemma_next_day(plus_months(end_date@, -12));
        }
        let start_date = day_after(subtract_years(end_date, 1));
        DateRange::assemble(start_date, end_date, Cadence::Annual)
    }

    /// The range one year before `date_range`.
    pub fn prior(date_range: &DateRange) -> (preceding: DateRange)
        requires
            date_range.wf(),
            in_bounds(annual_step(date_range@, -1)),
        ensures
            preceding.wf(),
            preceding@ == annual_step(date_range@, -1),
    {
        proof {
            lemma_months_step(date_range@, -12);
        }
        let start = subtract_years(date_range.start_date(), 1);
        let end = subtract_years(date_range.end_date(), 1);
        DateRange::assemble(start, end, Cadence::Annual)
    }

    /// The range one year after `date_range`.
    pub fn next(date_range: &DateRange) -> (following: DateRange)
        requires
            date_range.wf(),
            in_bounds(annual_step(date_range@, 1)),
        ensures
            following.wf(),
            following@ == annual_step(date_range@, 1),
    {
        proof {
            lemma_months_step(date_range@, 12);
        }
        let start = add_years(date_range.start_date(), 1);
        let end = add_years(date_range.end_date(), 1);
        DateRange::assemble(start, end, Cadence::Annual)
    }
}

} // verus!
