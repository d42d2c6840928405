//! Ranges of one month, counted either by calendar months or from a day
//! of the month to the day before it in the next month.

use vstd::prelude::*;

use crate::calendar::{
    lemma_next_day, lemma_plus_months_valid, month_start, next_day, plus_months, CivilDate,
};
use crate::date::{last_day_of_month_year, Date};
use crate::dateutils::{
    add_months, day_after, day_before, first_day_of_month, last_day_of_month, subtract_months,
};
use crate::daterange::date_range::DateRange;
use crate::daterange::model::{
    in_bounds, model_wf, monthly_next, monthly_prior, Cadence, RangeModel,
};
use crate::daterange::steps::lemma_monthly_step;

verus! {

/// The monthly range that ends on `end`: with start day 1 it starts with
/// the month of `end`, otherwise one month before the day after `end`.
pub open spec fn monthly_ending(end: CivilDate, start_day: usize) -> RangeModel {
    RangeModel {
        start: if start_day == 1 {
            month_start(end)
        } else {
            plus_months(next_day(end), -1)
        },
        end,
        cadence: Cadence::Monthly { start_day },
    }
}

/// Constructor of monthly ranges.
pub struct MonthlyDateRange;

impl MonthlyDateRange {
    /// The range from the first day of the month of `end_date` to `end_date`.
    pub fn with_end_date_on_first(end_date: Date) -> (range: DateRange)
        requires
            end_date.wf(),
        ensures
            range.wf(),
            range@ == monthly_ending(end_date@, 1),
    {
        Self::with_end_date_and_start_day(end_date, 1)
    }

    /// The monthly range that ends on `end_date`, for months that start on
    /// the day `start_day`.
    pub fn with_end_date_and_start_day(end_date: Date, start_day: usize) -> (range: DateRange)
        requires
            end_date.wf(),
            in_bounds(monthly_ending(end_date@, start_day)),
        ensures
            range.wf(),
            range@ == monthly_ending(end_date@, start_day),
    {
        let start_date = calculate_start_date_from_end_date(end_date, start_day);
        DateRange::assemble(start_date, end_date, Cadence::Monthly { start_day })
    }

    /// The monthly range before `date_range`.
    pub(crate) fn prior(date_range: &DateRange) -> (preceding: DateRange)
        requires
            date_range.wf(),
            date_range@.cadence is Monthly,
            in_bounds(monthly_prior(date_range@, date_range@.cadence->start_day)),
        ensures
            preceding.wf(),
            preceding@ == monthly_prior(date_range@, date_range@.cadence->start_day),
    {
        let start_day = date_range.start_day().unwrap();
        proof {
            lemma_monthly_step(date_range@, start_day);
        }
        let new_end = day_before(date_range.start_date());
        if start_day == 1 {
            let new_start = first_day_of_month(new_end);
            DateRange::assemble(new_start, new_end, date_range.cadence())
        } else {
            let new_start = subtract_months(date_range.start_date(), 1);
            DateRange::assemble(new_start, new_end, date_range.cadence())
        }
    }

    /// The monthly range after `date_range`.
    pub(crate) fn next(date_range: &DateRange) -> (following: DateRange)
        requires
            date_range.wf(),
            date_range@.cadence is Monthly,
            in_bounds(monthly_next(date_range@, date_range@.cadence->start_day)),
        ensures
            following.wf(),
            following@ == monthly_next(date_range@, date_range@.cadence->start_day),
    {
        let start_day = date_range.start_day().unwrap();
        proof {
            lemma_monthly_step(date_range@, start_day);
        }
        let new_start = day_after(date_range.end_date());
        if start_day == 1 {
            let new_end = last_day_of_month(new_start);
            DateRange::assemble(new_start, new_end, date_range.cadence())
        } else {
            let new_end = add_months(date_range.end_date(), 1);
            DateRange::assemble(new_start, new_end, date_range.cadence())
        }
    }
}

/// The first day of the monthly range that ends on `end_date`.
fn calculate_start_date_from_end_date(end_date: Date, start_day: usize) -> (start: Date)
    requires
        end_date.wf(),
        in_bounds(monthly_ending(end_date@, start_day)),
    ensures
        start.wf(),
        start@ == monthly_ending(end_date@, start_day).start,
        model_wf(monthly_ending(end_date@, start_day)),
{
    proof {
        lemma_next_day(end_date@);
        lemma_plus_months_valid(next_day(end_date@), -1);
    }
    if start_day == 1 || end_date.day() == last_day_of_month_year(
        end_date.month(),
        end_date.year(),
    ) {
        // One month before the first day of the next month is the first day of this month.
        first_day_of_month(end_date)
    } else {
        subtract_months(day_after(end_date), 1)
    }
}

} // verus!
