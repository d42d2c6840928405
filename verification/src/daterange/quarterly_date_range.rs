//! Ranges of three calendar months.

use vstd::prelude::*;

use crate::calendar::{lemma_plus_months_valid, month_end, month_start, plus_months, CivilDate};
use crate::date::Date;
use crate::dateutils::{add_months, first_day_of_month, last_day_of_month, subtract_months};
use crate::daterange::date_range::DateRange;
use crate::daterange::model::{
    in_bounds, model_wf, quarterly_step, with_cadence, Cadence, RangeModel,
};
use crate::daterange::steps::lemma_quarterly_step;

verus! {

/// The three calendar months that begin with the month of `start`.
pub open spec fn quarter_starting(start: CivilDate) -> RangeModel {
    RangeModel {
        start: month_start(start),
        end: month_end(plus_months(month_start(start), 2)),
        cadence: Cadence::Quarterly,
    }
}

/// The three calendar months that end with the month of `end`.
pub open spec fn quarter_ending(end: CivilDate) -> RangeModel {
    RangeModel {
        start: plus_months(month_start(end), -2),
        end: month_end(end),
        cadence: Cadence::Quarterly,
    }
}

/// Constructor and steps of quarterly ranges.
pub struct QuarterlyDateRange;

impl QuarterlyDateRange {
    /// The quarter that begins with the month of `start_date`: from the
    /// first day of that month to the last day of the second month after it.
    pub fn with_start_date(start_date: Date) -> (range: DateRange)
        requires
            start_date.wf(),
            in_bounds(quarter_starting(start_date@)),
        ensures
            range.wf(),
            range@ == quarter_starting(start_date@),
    {
        proof {
            lemma_plus_months_valid(month_start(start_date@), 2);
        }
        let start = first_day_of_month(start_date);
        let end = last_day_of_month(add_months(first_day_of_month(start_date), 2));
        DateRange::assemble(start, end, Cadence::Quarterly)
    }

    /// The quarter that ends with the month of `end_date`: from the first
    /// day of the second month before it to the last day of that month.
    pub fn with_end_date(end_date: Date) -> (range: DateRange)
        requires
            end_date.wf(),
            in_bounds(quarter_ending(end_date@)),
        ensures
            range.wf(),
            range@ == quarter_ending(end_date@),
    {
        proof {
            lemma_plus_months_valid(month_start(end_date@), -2);
            lemma_plus_months_valid(plus_months(month_start(end_date@), -2), 2);
        }
        let start = subtract_months(first_day_of_month(end_date), 2);
        let end = last_day_of_month(end_date);
        DateRange::assemble(start, end, Cadence::Quarterly)
    }

    /// The quarter before `date_range`, which must span a quarter itself.
    pub fn prior(date_range: &DateRange) -> (preceding: DateRange)
        requires
            date_range.wf(),
            model_wf(with_cadence(date_range@, Cadence::Quarterly)),
            in_bounds(quarterly_step(date_range@, -3)),
        ensures
            preceding.wf(),
            preceding@ == quarterly_step(date_range@, -3),
    {
        proof {
            lemma_quarterly_step(date_range@, -3);
            lemma_plus_months_valid(month_start(date_range@.end), -3);
        }
        let start = subtract_months(date_range.start_date(), 3);
        let end = last_day_of_month(
            subtract_months(first_day_of_month(date_range.end_date()), 3),
        );
        DateRange::assemble(start, end, Cadence::Quarterly)
    }

    /// The quarter after `date_range`, which must span a quarter itself.
    pub fn next(date_range: &DateRange) -> (following: DateRange)
        requires
            date_range.wf(),
            model_wf(with_cadence(date_range@, Cadence::Quarterly)),
            in_bounds(quarterly_step(date_range@, 3)),
        ensures
            following.wf(),
            following@ == quarterly_step(date_range@, 3),
    {
        proof {
            lemma_quarterly_step(date_range@, 3);
            lemma_plus_months_valid(month_start(date_range@.end), 3);
        }
        let start = add_months(date_range.start_date(), 3);
        let end = last_day_of_month(add_months(first_day_of_month(date_range.end_date()), 3));
        DateRange::assemble(start, end, Cadence::Quarterly)
    }
}

} // verus!
