//! Finding the range of a cadence that contains a date, and the ranges
//! that cover a span of dates.

use vstd::prelude::*;

use crate::calendar::{
    date_le, date_lt, day_number, is_valid_date, lemma_day_number_order, lemma_next_day,
    lemma_previous_day, CivilDate,
};
use crate::date::Date;
use crate::daterange::date_range::DateRange;
use crate::daterange::error::RangeError;
use crate::daterange::laws::lemma_neighbours_adjoin;
use crate::daterange::model::{
    contains_date_spec, in_bounds, model_wf, next_of, prior_of, Cadence, RangeModel,
};
use crate::daterange::steps::{lemma_next_wf, lemma_prior_wf};
use crate::daterange::walks::{all_wf, models_of};

verus! {

/// Number of days by which `later` lies after `earlier`; 0 where it does not.
pub open spec fn days_between(earlier: CivilDate, later: CivilDate) -> nat {
    if day_number(later) > day_number(earlier) {
        (day_number(later) - day_number(earlier)) as nat
    } else {
        0
    }
}

/// How the search for the range that contains a date ends.
pub enum Sought {
    /// The search came to this range, which contains the date.
    Found(RangeModel),
    /// The search stepped over the date: it lies between two ranges.
    PassedBy,
    /// The search came to a range that cannot be stored.
    OutOfCalendar,
}

/// Walks forward from `r` to the first range that does not end before
/// `date`. For a range that is not well formed, or a date that does not
/// exist, there is nothing to find.
pub open spec fn seek_forward(r: RangeModel, date: CivilDate) -> Sought
    decreases days_between(r.end, date),
{
    if !model_wf(r) || !is_valid_date(date) {
        Sought::PassedBy
    } else if date_le(date, r.end) {
        if date_le(r.start, date) {
            Sought::Found(r)
        } else {
            Sought::PassedBy
        }
    } else if !in_bounds(next_of(r)) {
        Sought::OutOfCalendar
    } else {
        proof {
            lemma_next_wf(r);
            lemma_day_number_order(r.end, next_of(r).end);
            lemma_day_number_order(date, r.end);
        }
        seek_forward(next_of(r), date)
    }
}

/// Walks backward from `r` to the first range that does not start after
/// `date`. For a range that is not well formed, or a date that does not
/// exist, there is nothing to find.
pub open spec fn seek_backward(r: RangeModel, date: CivilDate) -> Sought
    decreases days_between(date, r.start),
{
    if !model_wf(r) || !is_valid_date(date) {
        Sought::PassedBy
    } else if date_le(r.start, date) {
        if date_le(date, r.end) {
            Sought::Found(r)
        } else {
            Sought::PassedBy
        }
    } else if !in_bounds(prior_of(r)) {
        Sought::OutOfCalendar
    } else {
        proof {
            lemma_prior_wf(r);
            lemma_day_number_order(prior_of(r).start, r.start);
            lemma_day_number_order(r.start, date);
        }
        seek_backward(prior_of(r), date)
    }
}

/// The search for the range on the grid of `r` that contains `date`: it
/// walks from `r` towards `date` until a range no longer lies wholly
/// before or after it.
pub open spec fn range_containing(r: RangeModel, date: CivilDate) -> Sought {
    if date_lt(date, r.start) {
        seek_backward(r, date)
    } else {
        seek_forward(r, date)
    }
}

/// The ranges from `r` forward up to the first that does not end before
/// `to`; `None` if the walk comes to a range that cannot be stored.
pub open spec fn cover_from(r: RangeModel, to: CivilDate) -> Option<Seq<RangeModel>>
    decreases days_between(r.end, to),
{
    if !model_wf(r) || !is_valid_date(to) {
        None
    } else if date_le(to, r.end) {
        Some(seq![r])
    } else if !in_bounds(next_of(r)) {
        None
    } else {
        proof {
            lemma_next_wf(r);
            lemma_day_number_order(r.end, next_of(r).end);
            lemma_day_number_order(to, r.end);
        }
        match cover_from(next_of(r), to) {
            Some(rest) => Some(seq![r] + rest),
            None => None,
        }
    }
}

/// The ranges on the grid of `r` that cover the dates from `from` to
/// `to`: the range that contains `from`, and those after it up to the
/// first that does not end before `to`.
pub open spec fn span_cover(r: RangeModel, from: CivilDate, to: CivilDate) -> Option<
    Seq<RangeModel>,
> {
    match range_containing(r, from) {
        Sought::Found(first) => cover_from(first, to),
        _ => None,
    }
}

/// A range found by walking forward contains the date.
pub proof fn lemma_seek_forward_contains(r: RangeModel, date: CivilDate)
    ensures
        seek_forward(r, date) matches Sought::Found(found) ==> contains_date_spec(found, date)
            && model_wf(found),
    decreases days_between(r.end, date),
{
    if model_wf(r) && is_valid_date(date) && !date_le(date, r.end) && in_bounds(next_of(r)) {
        lemma_next_wf(r);
        lemma_day_number_order(r.end, next_of(r).end);
        lemma_day_number_order(date, r.end);
        lemma_seek_forward_contains(next_of(r), date);
    }
}

/// A range found by walking backward contains the date.
pub proof fn lemma_seek_backward_contains(r: RangeModel, date: CivilDate)
    ensures
        seek_backward(r, date) matches Sought::Found(found) ==> contains_date_spec(found, date)
            && model_wf(found),
    decreases days_between(date, r.start),
{
    if model_wf(r) && is_valid_date(date) && !date_le(r.start, date) && in_bounds(prior_of(r)) {
        lemma_prior_wf(r);
        lemma_day_number_order(prior_of(r).start, r.start);
        lemma_day_number_order(r.start, date);
        lemma_seek_backward_contains(prior_of(r), date);
    }
}

/// The cadences in which every range starts on the day after the one
/// before it: all but the semi-annual and the annual one.
pub open spec fn is_gapless(cadence: Cadence) -> bool {
    cadence != Cadence::SemiAnnual && cadence != Cadence::Annual
}

/// In a cadence without gaps the search never steps over a date: it finds
/// the range that contains the date, unless that range or one on the way
/// to it cannot be stored.
pub proof fn lemma_gapless_search_finds(r: RangeModel, date: CivilDate)
    requires
        model_wf(r),
        is_valid_date(date),
        is_gapless(r.cadence),
    ensures
        !(range_containing(r, date) is PassedBy),
{
    lemma_day_number_order(r.start, r.end);
    lemma_day_number_order(r.start, date);
    lemma_day_number_order(date, r.end);
    if date_lt(date, r.start) {
        lemma_gapless_seek_backward(r, date);
    } else {
        lemma_gapless_seek_forward(r, date);
    }
}

/// In a cadence without gaps the walk forward never steps over a date
/// that does not lie before the range it starts from.
proof fn lemma_gapless_seek_forward(r: RangeModel, date: CivilDate)
    requires
        model_wf(r),
        is_valid_date(date),
        is_gapless(r.cadence),
        date_le(r.start, date),
    ensures
        !(seek_forward(r, date) is PassedBy),
    decreases days_between(r.end, date),
{
    if !date_le(date, r.end) && in_bounds(next_of(r)) {
        lemma_next_wf(r);
        lemma_neighbours_adjoin(r);
        lemma_next_day(r.end);
        lemma_day_number_order(r.end, next_of(r).end);
        lemma_day_number_order(date, r.end);
        lemma_day_number_order(next_of(r).start, date);
        lemma_gapless_seek_forward(next_of(r), date);
    }
}

/// In a cadence without gaps the walk backward never steps over a date
/// that does not lie after the range it starts from.
proof fn lemma_gapless_seek_backward(r: RangeModel, date: CivilDate)
    requires
        model_wf(r),
        is_valid_date(date),
        is_gapless(r.cadence),
        date_le(date, r.end),
    ensures
        !(seek_backward(r, date) is PassedBy),
    decreases days_between(date, r.start),
{
    if !date_le(r.start, date) && in_bounds(prior_of(r)) {
        lemma_prior_wf(r);
        lemma_neighbours_adjoin(r);
        lemma_previous_day(r.start);
        lemma_day_number_order(prior_of(r).start, r.start);
        lemma_day_number_order(r.start, date);
        lemma_day_number_order(date, prior_of(r).end);
        lemma_gapless_seek_backward(prior_of(r), date);
    }
}

/// The ranges that cover a span start with the given range, follow one
/// another in the cadence, and come in the order of their start dates.
pub proof fn lemma_cover_from_ascending(r: RangeModel, to: CivilDate)
    ensures
        cover_from(r, to) matches Some(ranges) ==> {
            &&& ranges.len() >= 1
            &&& ranges[0] == r
            &&& date_le(to, ranges[ranges.len() - 1].end)
            &&& forall|i: int|
                0 <= i < ranges.len() - 1 ==> #[trigger] ranges[i + 1] == next_of(ranges[i])
                    && date_lt(ranges[i].end, to)
            &&& forall|i: int, j: int|
                0 <= i < j < ranges.len() ==> date_lt(
                    (#[trigger] ranges[i]).start,
                    (#[trigger] ranges[j]).start,
                )
        },
    decreases days_between(r.end, to),
{
    if model_wf(r) && is_valid_date(to) && !date_le(to, r.end) && in_bounds(next_of(r)) {
        lemma_next_wf(r);
        lemma_day_number_order(r.end, next_of(r).end);
        lemma_day_number_order(to, r.end);
        lemma_cover_from_ascending(next_of(r), to);
        if cover_from(next_of(r), to) is Some {
            let rest = cover_from(next_of(r), to)->0;
            let ranges = seq![r] + rest;
            assert forall|i: int| 0 <= i < ranges.len() - 1 implies #[trigger] ranges[i + 1]
                == next_of(ranges[i]) && date_lt(ranges[i].end, to) by {
                if i > 0 {
                    assert(ranges[i + 1] == rest[i - 1 + 1]);
                    assert(ranges[i] == rest[i - 1]);
                }
            }
            assert forall|i: int, j: int| 0 <= i < j < ranges.len() implies date_lt(
                (#[trigger] ranges[i]).start,
                (#[trigger] ranges[j]).start,
            ) by {
                assert(ranges[j] == rest[j - 1]);
                if i > 0 {
                    assert(ranges[i] == rest[i - 1]);
                } else if j > 1 {
                    assert(date_lt(rest[0].start, rest[j - 1].start));
                }
            }
        }
    }
}

impl DateRange {
    /// The range on the grid of this one that contains `date`: this range,
    /// or the one reached by stepping towards `date` until a range no
    /// longer lies wholly before or after it. `None` if that range does
    /// not contain `date` either, or if a step leads to a range that
    /// cannot be stored.
    pub fn range_containing_date(&self, date: Date) -> (found: Option<DateRange>)
        requires
            self.wf(),
            date.wf(),
        ensures
            found is Some <==> range_containing(self@, date@) is Found,
            found matches Some(range) ==> {
                &&& range.wf()
                &&& Sought::Found(range@) == range_containing(self@, date@)
                &&& contains_date_spec(range@, date@)
            },
    {
        proof {
            lemma_seek_forward_contains(self@, date@);
            lemma_seek_backward_contains(self@, date@);
        }
        let mut range = *self;
        if date.is_before(&range.start_date()) {
            while date.is_before(&range.start_date())
                invariant
                    range.wf(),
                    date.wf(),
                    seek_backward(range@, date@) == range_containing(self@, date@),
                decreases days_between(date@, range@.start),
            {
                if !range.can_prior() {
                    return None;
                }
                proof {
                    lemma_prior_wf(range@);
                    lemma_day_number_order(prior_of(range@).start, range@.start);
                    lemma_day_number_order(range@.start, date@);
                }
                range = range.prior();
            }
            if date.is_on_or_before(&range.end_date()) {
                Some(range)
            } else {
                None
            }
        } else {
            while range.end_date().is_before(&date)
                invariant
                    range.wf(),
                    date.wf(),
                    seek_forward(range@, date@) == range_containing(self@, date@),
                decreases days_between(range@.end, date@),
            {
                if !range.can_next() {
                    return None;
                }
                proof {
                    lemma_next_wf(range@);
                    lemma_day_number_order(range@.end, next_of(range@).end);
                    lemma_day_number_order(date@, range@.end);
                }
                range = range.next();
            }
            if range.start_date().is_on_or_before(&date) {
                Some(range)
            } else {
                None
            }
        }
    }

    /// The ranges on the grid of this one that cover the dates from
    /// `from_date` to `to_date`, in the order of their start dates: the
    /// range that contains `from_date`, and those after it up to the
    /// first that does not end before `to_date`.
    pub fn ranges_containing_span(&self, from_date: Date, to_date: Date) -> (ranges: Result<
        Vec<DateRange>,
        RangeError,
    >)
        requires
            self.wf(),
            from_date.wf(),
            to_date.wf(),
        ensures
            ranges == Err::<Vec<DateRange>, RangeError>(RangeError::InvalidRange) <==> date_lt(
                to_date@,
                from_date@,
            ),
            ranges == Err::<Vec<DateRange>, RangeError>(RangeError::NotCovered) <==> date_le(
                from_date@,
                to_date@,
            ) && span_cover(self@, from_date@, to_date@) is None,
            ranges matches Ok(list) ==> {
                &&& all_wf(list@)
                &&& Some(models_of(list@)) == span_cover(self@, from_date@, to_date@)
                &&& forall|i: int, j: int|
                    0 <= i < j < list@.len() ==> date_lt(
                        (#[trigger] list@[i])@.start,
                        (#[trigger] list@[j])@.start,
                    )
            },
    {
        if to_date.is_before(&from_date) {
            return Err(RangeError::InvalidRange);
        }
        let first = match self.range_containing_date(from_date) {
            Some(first) => first,
            None => {
                return Err(RangeError::NotCovered);
            },
        };
        let mut ranges: Vec<DateRange> = Vec::new();
        let mut range = first;
        ranges.push(range);
        while range.end_date().is_before(&to_date)
            invariant
                range.wf(),
                to_date.wf(),
                all_wf(ranges@),
                ranges@.len() >= 1,
                ranges@[ranges@.len() - 1] == range,
                date_le(from_date@, to_date@),
                span_cover(self@, from_date@, to_date@) == cover_from(first@, to_date@),
                cover_from(first@, to_date@) == match cover_from(range@, to_date@) {
                    Some(rest) => Some(models_of(ranges@).drop_last() + rest),
                    None => None,
                },
            decreases days_between(range@.end, to_date@),
        {
            if !range.can_next() {
                return Err(RangeError::NotCovered);
            }
            proof {
                lemma_next_wf(range@);
                lemma_day_number_order(range@.end, next_of(range@).end);
                lemma_day_number_order(to_date@, range@.end);
            }
            let ghost before = ranges@;
            let ghost current = range@;
            range = range.next();
            ranges.push(range);
            proof {
                assert(models_of(ranges@).drop_last() =~= models_of(before));
                assert(models_of(before) =~= models_of(before).drop_last() + seq![current]);
                if cover_from(range@, to_date@) is Some {
                    let rest = cover_from(range@, to_date@)->0;
                    assert(models_of(before).drop_last() + (seq![current] + rest) =~= models_of(
                        ranges@,
                    ).drop_last() + rest);
                }
            }
        }
        proof {
            assert(models_of(ranges@) =~= models_of(ranges@).drop_last() + seq![range@]);
            lemma_cover_from_ascending(first@, to_date@);
            assert forall|i: int, j: int| 0 <= i < j < ranges@.len() implies date_lt(
                (#[trigger] ranges@[i])@.start,
                (#[trigger] ranges@[j])@.start,
            ) by {
                assert(models_of(ranges@)[i] == ranges@[i]@);
                assert(models_of(ranges@)[j] == ranges@[j]@);
            }
        }
        Ok(ranges)
    }
}

} // verus!
