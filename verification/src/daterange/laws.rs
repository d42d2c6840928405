//! Laws of date ranges: what holds of every range, whatever its dates.

use vstd::prelude::*;

use crate::calendar::{
    date_lt, day_number, is_valid_date, keeps_day, lemma_day_number_of_date,
    lemma_day_number_order, lemma_next_day, lemma_next_previous_day, lemma_plus_days_add,
    lemma_plus_days_range, lemma_plus_months_round_trip, lemma_plus_months_valid,
    lemma_previous_day, month_end, month_start, next_day, plus_months, previous_day, CivilDate,
};
use crate::daterange::model::{
    contains_date_spec, dates_of, fixed_length_next, fixed_length_prior, length_in_days,
    model_wf, next_n_of, next_of, overlaps_spec, prior_n_of, prior_of, quarterly_step,
    window_of, Cadence, RangeModel,
};
use crate::daterange::monthly_date_range::monthly_ending;
use crate::daterange::steps::{
    lemma_fixed_length_step, lemma_next_n_wf, lemma_next_wf, lemma_prior_n_wf, lemma_prior_wf,
    lemma_quarterly_step,
};

verus! {

/// The ranges from which a step forward and a step back lead home again.
/// For the cadences with aligned boundaries these are all ranges. A
/// monthly range must start where its cadence puts the start for its end.
/// A semi-annual or annual range must have boundaries whose day of the
/// month exists in the month they move to.
pub open spec fn returns_after_next(r: RangeModel) -> bool {
    match r.cadence {
        Cadence::Monthly { start_day } => if start_day == 1 {
            r.start == month_start(r.end)
        } else {
            r.start == plus_months(next_day(r.end), -1)
        },
        Cadence::SemiAnnual => keeps_day(r.start, 6) && keeps_day(r.end, 6),
        Cadence::Annual => keeps_day(r.start, 12) && keeps_day(r.end, 12),
        _ => true,
    }
}

/// The ranges from which a step back and a step forward lead home again.
pub open spec fn returns_after_prior(r: RangeModel) -> bool {
    match r.cadence {
        Cadence::Monthly { start_day } => if start_day == 1 {
            r.end == month_end(r.start)
        } else {
            r.end == plus_months(previous_day(r.start), 1)
        },
        Cadence::SemiAnnual => keeps_day(r.start, -6) && keeps_day(r.end, -6),
        Cadence::Annual => keeps_day(r.start, -12) && keeps_day(r.end, -12),
        _ => true,
    }
}

/// Round trip: the range before the next range is the range itself, for
/// every range that `returns_after_next` admits, and for no other.
pub proof fn lemma_next_then_prior(r: RangeModel)
    requires
        model_wf(r),
    ensures
        returns_after_next(r) ==> prior_of(next_of(r)) == r,
        !returns_after_next(r) ==> prior_of(next_of(r)) != r,
{
    reveal(next_of);
    reveal(prior_of);
    lemma_next_wf(r);
    lemma_next_day(r.end);
    lemma_next_previous_day(r.end);
    match r.cadence {
        Cadence::SemiMonthly => {
            lemma_plus_months_valid(month_start(r.end), 1);
        },
        Cadence::Monthly { start_day } => {},
        Cadence::Quarterly => {
            lemma_quarterly_round_trip(r, 3);
        },
        Cadence::SemiAnnual => {
            lemma_plus_months_round_trip(r.start, 6);
            lemma_plus_months_round_trip(r.end, 6);
        },
        Cadence::Annual => {
            lemma_plus_months_round_trip(r.start, 12);
            lemma_plus_months_round_trip(r.end, 12);
        },
        _ => {
            lemma_fixed_length_round_trip(r);
        },
    }
}

/// Round trip: the range after the range before is the range itself, for
/// every range that `returns_after_prior` admits, and for no other.
pub proof fn lemma_prior_then_next(r: RangeModel)
    requires
        model_wf(r),
    ensures
        returns_after_prior(r) ==> next_of(prior_of(r)) == r,
        !returns_after_prior(r) ==> next_of(prior_of(r)) != r,
{
    reveal(next_of);
    reveal(prior_of);
    lemma_prior_wf(r);
    lemma_previous_day(r.start);
    lemma_next_previous_day(r.start);
    match r.cadence {
        Cadence::SemiMonthly => {
            lemma_plus_months_valid(month_start(previous_day(r.start)), 1);
        },
        Cadence::Monthly { start_day } => {},
        Cadence::Quarterly => {
            lemma_quarterly_round_trip(r, -3);
        },
        Cadence::SemiAnnual => {
            lemma_plus_months_round_trip(r.start, -6);
            lemma_plus_months_round_trip(r.end, -6);
        },
        Cadence::Annual => {
            lemma_plus_months_round_trip(r.start, -12);
            lemma_plus_months_round_trip(r.end, -12);
        },
        _ => {
            lemma_fixed_length_round_trip(r);
        },
    }
}

/// Round trip from a new monthly range: a step forward and a step back
/// from the monthly range that ends on a date lead home again. So do a
/// step back and a step forward, for start day 1, exactly where the date
/// is the last day of its month.
pub proof fn lemma_new_monthly_range_returns(end: CivilDate, start_day: usize)
    requires
        is_valid_date(end),
    ensures
        model_wf(monthly_ending(end, start_day)),
        prior_of(next_of(monthly_ending(end, start_day))) == monthly_ending(end, start_day),
        start_day == 1 ==> (next_of(prior_of(monthly_ending(end, start_day))) == monthly_ending(
            end,
            start_day,
        ) <==> end == month_end(end)),
{
    let r = monthly_ending(end, start_day);
    lemma_next_day(end);
    lemma_plus_months_valid(next_day(end), -1);
    lemma_next_then_prior(r);
    lemma_prior_then_next(r);
}

/// A range of fixed length moved by its length and back is itself.
proof fn lemma_fixed_length_round_trip(r: RangeModel)
    requires
        model_wf(r),
        r.cadence == Cadence::Arbitrary || r.cadence == Cadence::Weekly || r.cadence
            == Cadence::BiWeekly,
    ensures
        fixed_length_prior(fixed_length_next(r)) == r,
        fixed_length_next(fixed_length_prior(r)) == r,
{
    let days = length_in_days(r);
    lemma_fixed_length_step(r);
    lemma_plus_days_add(r.start, days, -days);
    lemma_plus_days_add(r.end, days, -days);
    lemma_plus_days_add(r.start, -days, days);
    lemma_plus_days_add(r.end, -days, days);
}

/// A quarter moved by whole months and back is itself.
proof fn lemma_quarterly_round_trip(r: RangeModel, months: int)
    requires
        model_wf(r),
        r.cadence == Cadence::Quarterly,
    ensures
        quarterly_step(quarterly_step(r, months), -months) == r,
{
    lemma_quarterly_step(r, months);
    lemma_plus_months_valid(r.start, 2);
    lemma_plus_months_valid(r.start, months);
    lemma_plus_months_valid(plus_months(r.start, months), -months);
    lemma_plus_months_valid(month_start(r.end), months);
    let moved_end = month_end(plus_months(month_start(r.end), months));
    lemma_plus_months_valid(month_start(moved_end), -months);
}

/// Length invariants: a weekly range has seven days and a bi-weekly one
/// fourteen, and so have the ranges before and after it.
pub proof fn lemma_week_lengths(r: RangeModel)
    requires
        model_wf(r),
        r.cadence == Cadence::Weekly || r.cadence == Cadence::BiWeekly,
    ensures
        length_in_days(r) == if r.cadence == Cadence::Weekly { 7int } else { 14int },
        length_in_days(next_of(r)) == length_in_days(r),
        length_in_days(prior_of(r)) == length_in_days(r),
        next_of(r).start == next_day(r.end),
        prior_of(r).end == previous_day(r.start),
{
    reveal(next_of);
    reveal(prior_of);
    lemma_fixed_length_step(r);
}

/// Length invariants: with start day 1, the range after a monthly range
/// is a whole calendar month, and so is the range before one that starts
/// on the first day of a month.
pub proof fn lemma_monthly_ends_with_month(r: RangeModel)
    requires
        model_wf(r),
        r.cadence == (Cadence::Monthly { start_day: 1 }),
    ensures
        next_of(r).end == month_end(next_of(r).end),
        prior_of(r).start == month_start(prior_of(r).end),
        r.start.day == 1 <==> prior_of(r).end == month_end(prior_of(r).end),
        r.end == month_end(r.end) <==> next_of(r).start.day == 1,
{
    reveal(next_of);
    reveal(prior_of);
    lemma_next_day(r.end);
    lemma_previous_day(r.start);
}

/// Where a cadence has no gaps: except for the semi-annual and annual
/// cadences, the next range starts on the day after the end, and the
/// range before ends on the day before the start.
pub proof fn lemma_neighbours_adjoin(r: RangeModel)
    requires
        model_wf(r),
        r.cadence != Cadence::SemiAnnual,
        r.cadence != Cadence::Annual,
    ensures
        next_of(r).start == next_day(r.end),
        prior_of(r).end == previous_day(r.start),
{
    reveal(next_of);
    reveal(prior_of);
    match r.cadence {
        Cadence::SemiMonthly => {
            lemma_plus_months_valid(month_start(r.end), 1);
        },
        Cadence::Monthly { start_day } => {},
        Cadence::Quarterly => {
            lemma_quarterly_step(r, 3);
            lemma_quarterly_step(r, -3);
        },
        _ => {
            lemma_fixed_length_step(r);
        },
    }
}

/// Containment: a date lies between the boundaries of a range exactly
/// when it is one of the dates of the range.
pub proof fn lemma_contains_iff_listed(r: RangeModel, date: CivilDate)
    requires
        model_wf(r),
        is_valid_date(date),
    ensures
        contains_date_spec(r, date) <==> dates_of(r).contains(date),
{
    lemma_day_number_order(r.start, date);
    lemma_day_number_order(date, r.end);
    lemma_day_number_order(r.start, r.end);
    let dates = dates_of(r);
    if contains_date_spec(r, date) {
        let i = day_number(date) - day_number(r.start);
        lemma_day_number_of_date(date);
        assert(dates[i] == date);
    }
    if dates.contains(date) {
        let i = choose|i: int| 0 <= i < dates.len() && dates[i] == date;
        lemma_plus_days_range(r.start, i);
    }
}

/// Overlap symmetry: two ranges overlap whichever of them is asked.
pub proof fn lemma_overlaps_symmetric(a: RangeModel, b: RangeModel)
    ensures
        overlaps_spec(a, b) == overlaps_spec(b, a),
{
}

/// Every step forward starts later, every step backward earlier.
pub proof fn lemma_steps_move_start(r: RangeModel, n: nat)
    requires
        model_wf(r),
        n >= 1,
    ensures
        date_lt(r.start, next_n_of(r, n).start),
        date_lt(prior_n_of(r, n).start, r.start),
    decreases n,
{
    lemma_next_n_wf(r, (n - 1) as nat);
    lemma_prior_n_wf(r, (n - 1) as nat);
    lemma_next_wf(next_n_of(r, (n - 1) as nat));
    lemma_prior_wf(prior_n_of(r, (n - 1) as nat));
    if n > 1 {
        lemma_steps_move_start(r, (n - 1) as nat);
    }
}

/// Among the ranges reached by steps from one range, more steps forward
/// start later and more steps backward start earlier.
pub proof fn lemma_steps_ascend(r: RangeModel, fewer: nat, more: nat)
    requires
        model_wf(r),
        fewer < more,
    ensures
        date_lt(next_n_of(r, fewer).start, next_n_of(r, more).start),
        date_lt(prior_n_of(r, more).start, prior_n_of(r, fewer).start),
    decreases more,
{
    lemma_next_n_wf(r, (more - 1) as nat);
    lemma_prior_n_wf(r, (more - 1) as nat);
    lemma_next_wf(next_n_of(r, (more - 1) as nat));
    lemma_prior_wf(prior_n_of(r, (more - 1) as nat));
    if fewer < more - 1 {
        lemma_steps_ascend(r, fewer, (more - 1) as nat);
    }
}

/// Order of the lists of neighbours: the window around a range, and with
/// it the lists of the ranges before and after, come in the order of
/// their start dates, oldest first.
pub proof fn lemma_window_ascends(r: RangeModel, before: nat, after: nat)
    requires
        model_wf(r),
    ensures
        forall|i: int, j: int|
            0 <= i < j < before + after + 1 ==> date_lt(
                (#[trigger] window_of(r, before, after)[i]).start,
                (#[trigger] window_of(r, before, after)[j]).start,
            ),
{
    let window = window_of(r, before, after);
    assert forall|i: int, j: int| 0 <= i < j < before + after + 1 implies date_lt(
        (#[trigger] window[i]).start,
        (#[trigger] window[j]).start,
    ) by {
        if j <= before {
            lemma_steps_ascend(r, (before - j) as nat, (before - i) as nat);
        } else if i > before {
            lemma_steps_ascend(r, (i - before) as nat, (j - before) as nat);
        } else {
            if i < before {
                lemma_steps_move_start(r, (before - i) as nat);
            }
            lemma_steps_move_start(r, (j - before) as nat);
        }
    }
}

/// Window composition: the window of `before` ranges before a range and
/// `after` ranges after it has `before + after + 1` ranges, and the range
/// itself stands at position `before` and nowhere else.
pub proof fn lemma_window_composition(r: RangeModel, before: nat, after: nat)
    requires
        model_wf(r),
    ensures
        window_of(r, before, after).len() == before + after + 1,
        forall|i: int|
            0 <= i < before + after + 1 ==> (#[trigger] window_of(r, before, after)[i] == r <==> i
                == before),
        forall|i: int|
            0 <= i <= before ==> #[trigger] window_of(r, before, after)[i] == prior_n_of(
                r,
                (before - i) as nat,
            ),
        forall|i: int|
            before < i < before + after + 1 ==> #[trigger] window_of(r, before, after)[i]
                == next_n_of(r, (i - before) as nat),
{
    let window = window_of(r, before, after);
    assert forall|i: int| 0 <= i < before + after + 1 implies (#[trigger] window[i] == r <==> i
        == before) by {
        if i < before {
            lemma_steps_move_start(r, (before - i) as nat);
        } else if i > before {
            lemma_steps_move_start(r, (i - before) as nat);
        }
    }
}

} // verus!
