//! Ranges of fourteen days.

use vstd::prelude::*;

use crate::calendar::{
    in_calendar_range, lemma_day_number_order, lemma_plus_days_range, plus_days, CivilDate,
};
use crate::date::Date;
use crate::dateutils::add_days;
use crate::daterange::date_range::DateRange;
use crate::daterange::model::{Cadence, RangeModel};

verus! {

/// The fourteen days that start on `start`.
pub open spec fn fortnight_starting(start: CivilDate) -> RangeModel {
    RangeModel { start, end: plus_days(start, 13), cadence: Cadence::BiWeekly }
}

/// The fourteen days that end on `end`.
pub open spec fn fortnight_ending(end: CivilDate) -> RangeModel {
    RangeModel { start: plus_days(end, -13), end, cadence: Cadence::BiWeekly }
}

/// Constructor of bi-weekly ranges.
pub struct BiWeeklyDateRange;

impl BiWeeklyDateRange {
    /// The fourteen days that start on `start_date`.
    pub fn with_start_date(start_date: Date) -> (range: DateRange)
        requires
            start_date.wf(),
            in_calendar_range(plus_days(start_date@, 13)),
        ensures
            range.wf(),
            range@ == fortnight_starting(start_date@),
    {
        proof {
            lemma_plus_days_range(start_date@, 13);
            lemma_day_number_order(start_date@, plus_days(start_date@, 13));
        }
        let end = add_days(start_date, 13);
        DateRange::assemble(start_date, end, Cadence::BiWeekly)
    }

    /// The fourteen days that end on `end_date`.
    pub fn with_end_date(end_date: Date) -> (range: DateRange)
        requires
            end_date.wf(),
            in_calendar_range(plus_days(end_date@, -13)),
        ensures
            range.wf(),
            range@ == fortnight_ending(end_date@),
    {
        proof {
            lemma_plus_days_range(end_date@, -13);
            lemma_day_number_order(plus_days(end_date@, -13), end_date@);
        }
        let start = add_days(end_date, -13);
        DateRange::assemble(start, end_date, Cadence::BiWeekly)
    }
}

} // verus!
