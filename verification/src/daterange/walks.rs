//! Walking several steps from a range, and the lists of its neighbours.

use vstd::prelude::*;

use crate::daterange::date_range::DateRange;
use crate::daterange::model::{
    can_step_backward, can_step_forward, in_bounds, next_n_of, prior_n_of, ranges_after_of,
    ranges_before_of, steps_taken, window_of, RangeModel,
};

verus! {

/// The models of a list of ranges.
pub open spec fn models_of(ranges: Seq<DateRange>) -> Seq<RangeModel> {
    ranges.map_values(|r: DateRange| r@)
}

/// Every range of the list is well formed.
pub open spec fn all_wf(ranges: Seq<DateRange>) -> bool {
    forall|i: int| 0 <= i < ranges.len() ==> (#[trigger] ranges[i]).wf()
}

/// The list in the opposite order.
fn reversed(ranges: &Vec<DateRange>) -> (turned: Vec<DateRange>)
    ensures
        turned@ == ranges@.reverse(),
{
    let mut turned: Vec<DateRange> = Vec::new();
    let mut left: usize = ranges.len();
    while left > 0
        invariant
            left <= ranges.len(),
            turned.len() == ranges.len() - left,
            forall|i: int| 0 <= i < turned.len() ==> turned[i] == ranges[ranges.len() - 1 - i],
        decreases left,
    {
        left -= 1;
        turned.push(ranges[left]);
    }
    assert(turned@ =~= ranges@.reverse());
    turned
}

impl DateRange {
    /// The range `number` steps before this one. A request for no step
    /// takes one step all the same: `prior_n(0)` is `prior()`.
    pub fn prior_n(&self, number: usize) -> (reached: DateRange)
        requires
            self.wf(),
            can_step_backward(self@, steps_taken(number)),
        ensures
            reached.wf(),
            reached@ == prior_n_of(self@, steps_taken(number)),
    {
        proof {
            reveal_with_fuel(prior_n_of, 2);
            assert(in_bounds(prior_n_of(self@, 1)));
        }
        let mut range = self.prior();
        let mut done: usize = 1;
        while done < number
            invariant
                self.wf(),
                1 <= done <= steps_taken(number),
                can_step_backward(self@, steps_taken(number)),
                range.wf(),
                range@ == prior_n_of(self@, done as nat),
            decreases number - done,
        {
            proof {
                assert(in_bounds(prior_n_of(self@, (done + 1) as nat)));
            }
            range = range.prior();
            done += 1;
        }
        range
    }

    /// The range `number` steps after this one. A request for no step
    /// takes one step all the same: `next_n(0)` is `next()`.
    pub fn next_n(&self, number: usize) -> (reached: DateRange)
        requires
            self.wf(),
            can_step_forward(self@, steps_taken(number)),
        ensures
            reached.wf(),
            reached@ == next_n_of(self@, steps_taken(number)),
    {
        proof {
            reveal_with_fuel(next_n_of, 2);
            assert(in_bounds(next_n_of(self@, 1)));
        }
        let mut range = self.next();
        let mut done: usize = 1;
        while done < number
            invariant
                self.wf(),
                1 <= done <= steps_taken(number),
                can_step_forward(self@, steps_taken(number)),
                range.wf(),
                range@ == next_n_of(self@, done as nat),
            decreases number - done,
        {
            proof {
                assert(in_bounds(next_n_of(self@, (done + 1) as nat)));
            }
            range = range.next();
            done += 1;
        }
        range
    }

    /// The `number` ranges before this one, oldest first.
    pub fn ranges_before(&self, number: usize) -> (ranges: Vec<DateRange>)
        requires
            self.wf(),
            can_step_backward(self@, number as nat),
            number < usize::MAX,
        ensures
            all_wf(ranges@),
            models_of(ranges@) == ranges_before_of(self@, number as nat, false),
    {
        self.ranges_before_impl(number, false)
    }

    /// The `number` ranges before this one, oldest first, and then this one.
    pub fn ranges_before_inclusive(&self, number: usize) -> (ranges: Vec<DateRange>)
        requires
            self.wf(),
            can_step_backward(self@, number as nat),
            number < usize::MAX,
        ensures
            all_wf(ranges@),
            models_of(ranges@) == ranges_before_of(self@, number as nat, true),
    {
        self.ranges_before_impl(number, true)
    }

    /// The `number` ranges after this one, oldest first.
    pub fn ranges_after(&self, number: usize) -> (ranges: Vec<DateRange>)
        requires
            self.wf(),
            can_step_forward(self@, number as nat),
            number < usize::MAX,
        ensures
            all_wf(ranges@),
            models_of(ranges@) == ranges_after_of(self@, number as nat, false),
    {
        self.ranges_after_impl(number, false)
    }

    /// This range and then the `number` ranges after it, oldest first.
    pub fn ranges_after_inclusive(&self, number: usize) -> (ranges: Vec<DateRange>)
        requires
            self.wf(),
            can_step_forward(self@, number as nat),
            number < usize::MAX,
        ensures
            all_wf(ranges@),
            models_of(ranges@) == ranges_after_of(self@, number as nat, true),
    {
        self.ranges_after_impl(number, true)
    }

    /// The `before` ranges before this one, this one, and the `after`
    /// ranges after it, oldest first.
    pub fn ranges_window(&self, before: usize, after: usize) -> (ranges: Vec<DateRange>)
        requires
            self.wf(),
            can_step_backward(self@, before as nat),
            can_step_forward(self@, after as nat),
            before + after < usize::MAX,
        ensures
            all_wf(ranges@),
            models_of(ranges@) == window_of(self@, before as nat, after as nat),
            ranges@.len() == before + after + 1,
            ranges@[before as int]@ == self@,
    {
        let mut ranges = self.ranges_before_impl(before, true);
        let mut after_ranges = self.ranges_after_impl(after, false);
        let ghost earlier = ranges@;
        let ghost later = after_ranges@;
        ranges.append(&mut after_ranges);
        proof {
            assert(ranges@ == earlier + later);
            assert(models_of(ranges@) =~= models_of(earlier) + models_of(later));
            assert(models_of(ranges@)[before as int] == ranges@[before as int]@);
        }
        ranges
    }

    fn ranges_before_impl(&self, number: usize, include_self: bool) -> (ranges: Vec<DateRange>)
        requires
            self.wf(),
            can_step_backward(self@, number as nat),
            number < usize::MAX,
        ensures
            all_wf(ranges@),
            models_of(ranges@) == ranges_before_of(self@, number as nat, include_self),
    {
        let mut ranges: Vec<DateRange> = Vec::new();
        if include_self {
            ranges.push(*self);
        }
        let ghost offset: int = if include_self { 0 } else { 1 };
        let mut current = *self;
        let mut done: usize = 0;
        while done < number
            invariant
                done <= number,
                can_step_backward(self@, number as nat),
                current.wf(),
                current@ == prior_n_of(self@, done as nat),
                ranges.len() == done + 1 - offset,
                offset == if include_self { 0int } else { 1int },
                forall|i: int|
                    0 <= i < ranges.len() ==> (#[trigger] ranges[i]).wf() && ranges[i]@
                        == prior_n_of(self@, (i + offset) as nat),
            decreases number - done,
        {
            proof {
                assert(in_bounds(prior_n_of(self@, (done + 1) as nat)));
            }
            current = current.prior();
            ranges.push(current);
            done += 1;
        }
        let ascending = reversed(&ranges);
        proof {
            assert(models_of(ascending@) =~= ranges_before_of(
                self@,
                number as nat,
                include_self,
            ));
        }
        ascending
    }

    fn ranges_after_impl(&self, number: usize, include_self: bool) -> (ranges: Vec<DateRange>)
        requires
            self.wf(),
            can_step_forward(self@, number as nat),
            number < usize::MAX,
        ensures
            all_wf(ranges@),
            models_of(ranges@) == ranges_after_of(self@, number as nat, include_self),
    {
        let mut ranges: Vec<DateRange> = Vec::new();
        if include_self {
            ranges.push(*self);
        }
        let ghost offset: int = if include_self { 0 } else { 1 };
        let mut current = *self;
        let mut done: usize = 0;
        while done < number
            invariant
                done <= number,
                can_step_forward(self@, number as nat),
                current.wf(),
                current@ == next_n_of(self@, done as nat),
                ranges.len() == done + 1 - offset,
                offset == if include_self { 0int } else { 1int },
                forall|i: int|
                    0 <= i < ranges.len() ==> (#[trigger] ranges[i]).wf() && ranges[i]@
                        == next_n_of(self@, (i + offset) as nat),
            decreases number - done,
        {
            proof {
                assert(in_bounds(next_n_of(self@, (done + 1) as nat)));
            }
            current = current.next();
            ranges.push(current);
            done += 1;
        }
        proof {
            assert(models_of(ranges@) =~= ranges_after_of(self@, number as nat, include_self));
        }
        ranges
    }
}

} // verus!
