//! What a step to a neighbouring range keeps and what it changes.

use vstd::prelude::*;

use crate::calendar::{
    date_le, date_lt, is_valid_date, lemma_day_number_order, lemma_next_day,
    lemma_plus_days_range, lemma_plus_months_direction, lemma_plus_months_order,
    lemma_plus_months_valid, lemma_previous_day, month_start, next_day, plus_months,
    previous_day,
};
use crate::daterange::model::{
    fixed_length_next, fixed_length_prior, length_in_days, model_wf, monthly_next, monthly_prior,
    next_n_of, next_of, prior_n_of, prior_of, quarterly_step, semi_monthly_next,
    semi_monthly_prior, with_cadence, Cadence, RangeModel,
};

verus! {

/// A step of fixed length keeps the range well formed and moves it in the
/// direction of the step.
pub proof fn lemma_fixed_length_step(r: RangeModel)
    requires
        model_wf(r),
        r.cadence == Cadence::Arbitrary || r.cadence == Cadence::Weekly || r.cadence
            == Cadence::BiWeekly,
    ensures
        model_wf(fixed_length_next(r)),
        model_wf(fixed_length_prior(r)),
        fixed_length_next(r).start == next_day(r.end),
        fixed_length_prior(r).end == previous_day(r.start),
        length_in_days(fixed_length_next(r)) == length_in_days(r),
        length_in_days(fixed_length_prior(r)) == length_in_days(r),
        date_lt(r.end, fixed_length_next(r).end),
        date_lt(fixed_length_prior(r).start, r.start),
{
    let n = fixed_length_next(r);
    let p = fixed_length_prior(r);
    lemma_day_number_order(r.start, r.end);
    lemma_next_day(r.end);
    lemma_previous_day(r.start);
    lemma_plus_days_range(r.start, length_in_days(r));
    lemma_plus_days_range(r.end, length_in_days(r));
    lemma_plus_days_range(r.start, -length_in_days(r));
    lemma_plus_days_range(r.end, -length_in_days(r));
    lemma_day_number_order(n.start, n.end);
    lemma_day_number_order(p.start, p.end);
    lemma_day_number_order(n.start, next_day(r.end));
    lemma_day_number_order(p.end, previous_day(r.start));
    lemma_day_number_order(r.end, n.end);
    lemma_day_number_order(p.start, r.start);
}

/// A semi-monthly step keeps the range well formed; the next range starts
/// on the day after the end, the range before ends on the day before the
/// start.
pub proof fn lemma_semi_monthly_step(r: RangeModel)
    requires
        model_wf(with_cadence(r, Cadence::SemiMonthly)),
    ensures
        model_wf(semi_monthly_next(r)),
        model_wf(semi_monthly_prior(r)),
        semi_monthly_next(r).start == next_day(r.end),
        semi_monthly_prior(r).end == previous_day(r.start),
{
    lemma_plus_months_valid(month_start(r.end), 1);
}

/// A monthly step keeps the range well formed.
pub proof fn lemma_monthly_step(r: RangeModel, start_day: usize)
    requires
        model_wf(with_cadence(r, Cadence::Monthly { start_day })),
    ensures
        model_wf(monthly_next(r, start_day)),
        model_wf(monthly_prior(r, start_day)),
{
    lemma_next_day(r.end);
    lemma_previous_day(r.start);
    lemma_plus_months_valid(r.end, 1);
    lemma_plus_months_valid(r.start, -1);
}

/// A quarterly step by a whole number of months keeps the range well
/// formed, and moves it forward for a positive count and backward for a
/// negative one.
pub proof fn lemma_quarterly_step(r: RangeModel, months: int)
    requires
        model_wf(with_cadence(r, Cadence::Quarterly)),
    ensures
        model_wf(quarterly_step(r, months)),
        months > 0 ==> date_lt(r.end, quarterly_step(r, months).end) && date_lt(
            r.start,
            quarterly_step(r, months).start,
        ),
        months < 0 ==> date_lt(quarterly_step(r, months).start, r.start) && date_lt(
            quarterly_step(r, months).end,
            r.end,
        ),
        months == 3 ==> quarterly_step(r, months).start == next_day(r.end),
        months == -3 ==> quarterly_step(r, months).end == previous_day(r.start),
{
    lemma_plus_months_valid(r.start, 2);
    lemma_plus_months_valid(r.start, months);
    lemma_plus_months_valid(month_start(r.end), months);
    lemma_plus_months_valid(plus_months(r.start, months), 2);
}

/// A step that moves both boundaries by months keeps the range well
/// formed under a cadence without alignment, and moves it forward for a
/// positive count and backward for a negative one.
pub proof fn lemma_months_step(r: RangeModel, months: int)
    requires
        is_valid_date(r.start),
        is_valid_date(r.end),
        date_le(r.start, r.end),
    ensures
        is_valid_date(plus_months(r.start, months)),
        is_valid_date(plus_months(r.end, months)),
        date_le(plus_months(r.start, months), plus_months(r.end, months)),
        months > 0 ==> date_lt(r.end, plus_months(r.end, months)) && date_lt(
            r.start,
            plus_months(r.start, months),
        ),
        months < 0 ==> date_lt(plus_months(r.start, months), r.start) && date_lt(
            plus_months(r.end, months),
            r.end,
        ),
{
    lemma_plus_months_order(r.start, r.end, months);
    lemma_plus_months_direction(r.start, months);
    lemma_plus_months_direction(r.end, months);
    lemma_plus_months_valid(r.start, months);
    lemma_plus_months_valid(r.end, months);
}

/// The following range is again a well-formed range of the same cadence,
/// and it ends later.
pub proof fn lemma_next_wf(r: RangeModel)
    requires
        model_wf(r),
    ensures
        model_wf(next_of(r)),
        next_of(r).cadence == r.cadence,
        date_lt(r.start, next_of(r).start),
        date_lt(r.end, next_of(r).end),
{
    reveal(next_of);
    lemma_next_day(r.end);
    lemma_day_number_order(r.start, r.end);
    lemma_day_number_order(r.end, next_day(r.end));
    lemma_day_number_order(r.start, next_day(r.end));
    match r.cadence {
        Cadence::Arbitrary => lemma_fixed_length_step(r),
        Cadence::Weekly => lemma_fixed_length_step(r),
        Cadence::BiWeekly => lemma_fixed_length_step(r),
        Cadence::SemiMonthly => lemma_semi_monthly_step(r),
        Cadence::Monthly { start_day } => {
            lemma_monthly_step(r, start_day);
            lemma_plus_months_valid(r.end, 1);
        },
        Cadence::Quarterly => lemma_quarterly_step(r, 3),
        Cadence::SemiAnnual => lemma_months_step(r, 6),
        Cadence::Annual => lemma_months_step(r, 12),
    }
}

/// The preceding range is again a well-formed range of the same cadence,
/// and it starts earlier.
pub proof fn lemma_prior_wf(r: RangeModel)
    requires
        model_wf(r),
    ensures
        model_wf(prior_of(r)),
        prior_of(r).cadence == r.cadence,
        date_lt(prior_of(r).start, r.start),
        date_lt(prior_of(r).end, r.end),
{
    reveal(prior_of);
    lemma_previous_day(r.start);
    lemma_day_number_order(r.start, r.end);
    lemma_day_number_order(previous_day(r.start), r.start);
    lemma_day_number_order(previous_day(r.start), r.end);
    match r.cadence {
        Cadence::Arbitrary => lemma_fixed_length_step(r),
        Cadence::Weekly => lemma_fixed_length_step(r),
        Cadence::BiWeekly => lemma_fixed_length_step(r),
        Cadence::SemiMonthly => lemma_semi_monthly_step(r),
        Cadence::Monthly { start_day } => {
            lemma_monthly_step(r, start_day);
            lemma_plus_months_valid(r.start, -1);
        },
        Cadence::Quarterly => lemma_quarterly_step(r, -3),
        Cadence::SemiAnnual => lemma_months_step(r, -6),
        Cadence::Annual => lemma_months_step(r, -12),
    }
}

/// Any number of steps forward gives a well-formed range of the same cadence.
pub proof fn lemma_next_n_wf(r: RangeModel, n: nat)
    requires
        model_wf(r),
    ensures
        model_wf(next_n_of(r, n)),
        next_n_of(r, n).cadence == r.cadence,
    decreases n,
{
    if n > 0 {
        lemma_next_n_wf(r, (n - 1) as nat);
        lemma_next_wf(next_n_of(r, (n - 1) as nat));
    }
}

/// Any number of steps backward gives a well-formed range of the same cadence.
pub proof fn lemma_prior_n_wf(r: RangeModel, n: nat)
    requires
        model_wf(r),
    ensures
        model_wf(prior_n_of(r, n)),
        prior_n_of(r, n).cadence == r.cadence,
    decreases n,
{
    if n > 0 {
        lemma_prior_n_wf(r, (n - 1) as nat);
        lemma_prior_wf(prior_n_of(r, (n - 1) as nat));
    }
}

} // verus!
