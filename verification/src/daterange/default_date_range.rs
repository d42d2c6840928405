//! The plain span of dates that underlies every range.

use vstd::prelude::*;

use crate::calendar::{date_le, lemma_day_number_order};
use crate::date::Date;
use crate::daterange::error::RangeError;
use crate::daterange::model::{in_bounds, length_in_days, model_wf, Cadence, RangeModel};

verus! {

/// An inclusive span of dates together with its length in days. Taken by
/// itself it is a range of arbitrary cadence.
#[derive(Clone, Copy, Debug, Hash)]
pub struct DefaultDateRange {
    start_date: Date,
    end_date: Date,
    len: usize,
}

impl View for DefaultDateRange {
    type V = RangeModel;

    closed spec fn view(&self) -> RangeModel {
        RangeModel { start: self.start_date@, end: self.end_date@, cadence: Cadence::Arbitrary }
    }
}

impl DefaultDateRange {
    /// The stored length.
    pub closed spec fn spec_len(&self) -> usize {
        self.len
    }

    /// The boundary dates exist, can be stored and are in order, and the
    /// stored length is the number of days from the first to the last.
    pub open spec fn wf(&self) -> bool {
        &&& model_wf(self@)
        &&& in_bounds(self@)
        &&& self.spec_len() == length_in_days(self@)
    }

    /// The span from `start_date` to `end_date`, unless the end lies before the start.
    pub fn new(start_date: Date, end_date: Date) -> (span: Result<Self, RangeError>)
        requires
            start_date.wf(),
            end_date.wf(),
        ensures
            span.is_ok() <==> date_le(start_date@, end_date@),
            span.is_err() ==> span == Err::<Self, RangeError>(RangeError::InvalidRange),
            span.is_ok() ==> {
                let s = span.unwrap();
                &&& s.wf()
                &&& s@.start == start_date@
                &&& s@.end == end_date@
            },
    {
        if !start_date.is_on_or_before(&end_date) {
            return Err(RangeError::InvalidRange);
        }
        proof {
            lemma_day_number_order(start_date@, end_date@);
        }
        let days: i64 = end_date.num_days_from_ce() - start_date.num_days_from_ce();
        Ok(DefaultDateRange { start_date, end_date, len: (days + 1) as usize })
    }

    /// The first date of the span.
    pub fn start_date(&self) -> (date: Date)
        ensures
            date@ == self@.start,
            self.wf() ==> date.wf(),
    {
        self.start_date
    }

    /// The last date of the span.
    pub fn end_date(&self) -> (date: Date)
        ensures
            date@ == self@.end,
            self.wf() ==> date.wf(),
    {
        self.end_date
    }

    /// The number of days in the span, both boundary dates included.
    pub fn len(&self) -> (days: usize)
        requires
            self.wf(),
        ensures
            days == length_in_days(self@),
            days >= 1,
    {
        proof {
            lemma_day_number_order(self@.start, self@.end);
        }
        self.len
    }
}

} // verus!
