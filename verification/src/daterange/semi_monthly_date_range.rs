//! Half-month ranges: the 1st to the 15th, and the 16th to the end of the month.

use vstd::prelude::*;

use crate::calendar::{days_in_month, CivilDate};
use crate::date::{last_day_of_month_year, Date};
use crate::dateutils::{add_months, day_before, first_day_of_month, last_day_of_month};
use crate::daterange::date_range::DateRange;
use crate::daterange::error::RangeError;
use crate::daterange::model::{
    in_bounds, model_wf, on_day, semi_monthly_next, semi_monthly_prior, with_cadence, Cadence,
    RangeModel,
};
use crate::daterange::steps::lemma_semi_monthly_step;

verus! {

/// The day of the month on which the first half of a month ends.
pub const FIFTEENTH_OF_MONTH: u32 = 15;

/// Whether a half-month range can end on `end`: on the 15th or on the
/// last day of a month.
pub open spec fn ends_half_month(end: CivilDate) -> bool {
    end.day == 15 || end.day == days_in_month(end.year, end.month)
}

/// The half-month range that ends on `end`.
pub open spec fn semi_monthly_ending(end: CivilDate) -> RangeModel {
    RangeModel {
        start: if end.day == 15 {
            on_day(end, 1)
        } else {
            on_day(end, 16)
        },
        end,
        cadence: Cadence::SemiMonthly,
    }
}

/// Constructor of semi-monthly ranges.
pub struct SemiMonthlyDateRange;

impl SemiMonthlyDateRange {
    /// The half-month range that ends on `end_date`, which must be the
    /// 15th or the last day of its month.
    pub fn with_end_date(end_date: Date) -> (range: Result<DateRange, RangeError>)
        requires
            end_date.wf(),
        ensures
            range.is_ok() <==> ends_half_month(end_date@),
            range.is_err() ==> range == Err::<DateRange, RangeError>(RangeError::InvalidRange),
            range.is_ok() ==> range.unwrap().wf() && range.unwrap()@ == semi_monthly_ending(
                end_date@,
            ),
    {
        let last = last_day_of_month_year(end_date.month(), end_date.year());
        if end_date.day() != FIFTEENTH_OF_MONTH && end_date.day() != last {
            return Err(RangeError::InvalidRange);
        }
        let start = calculate_start_date_from_end_date(end_date);
        Ok(DateRange::assemble(start, end_date, Cadence::SemiMonthly))
    }

    /// The half-month range before `date_range`.
    pub(crate) fn prior(date_range: &DateRange) -> (preceding: DateRange)
        requires
            date_range.wf(),
            model_wf(with_cadence(date_range@, Cadence::SemiMonthly)),
            in_bounds(semi_monthly_prior(date_range@)),
        ensures
            preceding.wf(),
            preceding@ == semi_monthly_prior(date_range@),
    {
        proof {
            lemma_semi_monthly_step(date_range@);
        }
        let start = date_range.start_date();
        if start.day() == FIFTEENTH_OF_MONTH + 1 {
            // The second half of a month follows the first half of the same month.
            let first = Date::from_ymd(start.year(), start.month(), 1);
            let last = Date::from_ymd(start.year(), start.month(), FIFTEENTH_OF_MONTH);
            DateRange::assemble(first, last, Cadence::SemiMonthly)
        } else {
            // The first half of a month follows the second half of the month before.
            let last = day_before(start);
            let first = Date::from_ymd(last.year(), last.month(), FIFTEENTH_OF_MONTH + 1);
            DateRange::assemble(first, last, Cadence::SemiMonthly)
        }
    }

    /// The half-month range after `date_range`.
    pub(crate) fn next(date_range: &DateRange) -> (following: DateRange)
        requires
            date_range.wf(),
            model_wf(with_cadence(date_range@, Cadence::SemiMonthly)),
            in_bounds(semi_monthly_next(date_range@)),
        ensures
            following.wf(),
            following@ == semi_monthly_next(date_range@),
    {
        proof {
            lemma_semi_monthly_step(date_range@);
        }
        let end = date_range.end_date();
        let start_date = if end.day() == FIFTEENTH_OF_MONTH {
            // Next is the 16th to the last day of the same month.
            Date::from_ymd(end.year(), end.month(), FIFTEENTH_OF_MONTH + 1)
        } else {
            // Next is the 1st to the 15th of the following month.
            add_months(first_day_of_month(end), 1)
        };
        let end_date = if start_date.day() == 1 {
            Date::from_ymd(start_date.year(), start_date.month(), FIFTEENTH_OF_MONTH)
        } else {
            last_day_of_month(start_date)
        };
        DateRange::assemble(start_date, end_date, Cadence::SemiMonthly)
    }
}

/// The first day of the half month that ends on `end_date`.
fn calculate_start_date_from_end_date(end_date: Date) -> (start: Date)
    requires
        end_date.wf(),
        ends_half_month(end_date@),
    ensures
        start.wf(),
        start@ == semi_monthly_ending(end_date@).start,
{
    if end_date.day() == FIFTEENTH_OF_MONTH {
        Date::from_ymd(end_date.year(), end_date.month(), 1)
    } else {
        Date::from_ymd(end_date.year(), end_date.month(), FIFTEENTH_OF_MONTH + 1)
    }
}

} // verus!
