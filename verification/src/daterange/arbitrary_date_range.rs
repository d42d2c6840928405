//! Ranges between any two dates; their neighbours have the same length.

use vstd::prelude::*;

use crate::calendar::date_le;
use crate::date::Date;
use crate::daterange::date_range::DateRange;
use crate::daterange::error::RangeError;
use crate::daterange::model::{Cadence, RangeModel};

verus! {

/// Constructor of ranges of arbitrary length.
pub struct ArbitraryDateRange;

impl ArbitraryDateRange {
    /// The range of the single day `date`.
    pub fn date(date: Date) -> (range: DateRange)
        requires
            date.wf(),
        ensures
            range.wf(),
            range@ == (RangeModel { start: date@, end: date@, cadence: Cadence::Arbitrary }),
    {
        DateRange::assemble(date, date, Cadence::Arbitrary)
    }

    /// The range from `start_date` to `end_date`, unless the end lies
    /// before the start.
    pub fn of(start_date: Date, end_date: Date) -> (range: Result<DateRange, RangeError>)
        requires
            start_date.wf(),
            end_date.wf(),
        ensures
            range.is_ok() <==> date_le(start_date@, end_date@),
            range.is_err() ==> range == Err::<DateRange, RangeError>(RangeError::InvalidRange),
            range.is_ok() ==> range.unwrap().wf() && range.unwrap()@ == (RangeModel {
                start: start_date@,
                end: end_date@,
                cadence: Cadence::Arbitrary,
            }),
    {
        DateRange::new(start_date, end_date)
    }
}

} // verus!
