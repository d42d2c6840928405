//! Equality and order of ranges: by the start date, then by the end date.

use core::cmp::Ordering;
use vstd::prelude::*;
use vstd::std_specs::cmp::{PartialEqSpecImpl, PartialOrdSpecImpl};

use crate::calendar::{date_lt, CivilDate};
use crate::date::Date;
use crate::daterange::date_range::DateRange;
use crate::daterange::default_date_range::DefaultDateRange;

verus! {

/// How the span from `start` to `end` compares with the span from
/// `other_start` to `other_end`: by the start dates, and by the end dates
/// where the start dates are the same.
pub open spec fn compare_spans(
    start: CivilDate,
    end: CivilDate,
    other_start: CivilDate,
    other_end: CivilDate,
) -> Ordering {
    if date_lt(start, other_start) || (start == other_start && date_lt(end, other_end)) {
        Ordering::Less
    } else if start == other_start && end == other_end {
        Ordering::Equal
    } else {
        Ordering::Greater
    }
}

/// Compares two spans given by their boundary dates.
fn compare_boundaries(start: Date, end: Date, other_start: Date, other_end: Date) -> (order:
    Ordering)
    ensures
        order == compare_spans(start@, end@, other_start@, other_end@),
{
    proof {
        Date::lemma_view_injective(start, other_start);
        Date::lemma_view_injective(end, other_end);
    }
    if start.is_before(&other_start) {
        Ordering::Less
    } else if start == other_start {
        if end.is_before(&other_end) {
            Ordering::Less
        } else if end == other_end {
            Ordering::Equal
        } else {
            Ordering::Greater
        }
    } else {
        Ordering::Greater
    }
}

impl PartialEq for DateRange {
    /// Two ranges are equal when their boundary dates are.
    fn eq(&self, other: &Self) -> (equal: bool) {
        match compare_boundaries(
            self.start_date(),
            self.end_date(),
            other.start_date(),
            other.end_date(),
        ) {
            Ordering::Equal => true,
            _ => false,
        }
    }
}

impl PartialEqSpecImpl for DateRange {
    open spec fn obeys_eq_spec() -> bool {
        true
    }

    open spec fn eq_spec(&self, other: &Self) -> bool {
        self@.start == other@.start && self@.end == other@.end
    }
}

impl Eq for DateRange {

}

impl PartialOrd for DateRange {
    /// Ranges are ordered by their start dates, then by their end dates.
    fn partial_cmp(&self, other: &Self) -> (order: Option<Ordering>) {
        Some(
            compare_boundaries(
                self.start_date(),
                self.end_date(),
                other.start_date(),
                other.end_date(),
            ),
        )
    }
}

impl PartialOrdSpecImpl for DateRange {
    open spec fn obeys_partial_cmp_spec() -> bool {
        true
    }

    open spec fn partial_cmp_spec(&self, other: &Self) -> Option<Ordering> {
        Some(compare_spans(self@.start, self@.end, other@.start, other@.end))
    }
}

impl PartialEq for DefaultDateRange {
    /// Two spans are equal when their boundary dates are.
    fn eq(&self, other: &Self) -> (equal: bool) {
        match compare_boundaries(
            self.start_date(),
            self.end_date(),
            other.start_date(),
            other.end_date(),
        ) {
            Ordering::Equal => true,
            _ => false,
        }
    }
}

impl PartialEqSpecImpl for DefaultDateRange {
    open spec fn obeys_eq_spec() -> bool {
        true
    }

    open spec fn eq_spec(&self, other: &Self) -> bool {
        self@.start == other@.start && self@.end == other@.end
    }
}

impl Eq for DefaultDateRange {

}

impl PartialOrd for DefaultDateRange {
    /// Spans are ordered by their start dates, then by their end dates.
    fn partial_cmp(&self, other: &Self) -> (order: Option<Ordering>) {
        Some(
            compare_boundaries(
                self.start_date(),
                self.end_date(),
                other.start_date(),
                other.end_date(),
            ),
        )
    }
}

impl PartialOrdSpecImpl for DefaultDateRange {
    open spec fn obeys_partial_cmp_spec() -> bool {
        true
    }

    open spec fn partial_cmp_spec(&self, other: &Self) -> Option<Ordering> {
        Some(compare_spans(self@.start, self@.end, other@.start, other@.end))
    }
}

} // verus!
