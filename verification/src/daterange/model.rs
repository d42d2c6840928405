//! The mathematical model of a date range: its two boundary dates, its
//! cadence, and where the cadence puts the neighbouring ranges.

use vstd::prelude::*;

use crate::calendar::{
    date_le, day_number, days_in_month, in_calendar_range, is_valid_date, month_end,
    month_start, next_day, plus_days, plus_months, previous_day, CivilDate,
};

verus! {

/// The rule by which a range is followed and preceded by its neighbours.
#[derive(Clone, Copy, Debug, PartialEq, Eq, Structural, Hash)]
pub enum Cadence {
    /// A span of any length; its neighbours have the same number of days.
    Arbitrary,
    /// Seven days.
    Weekly,
    /// Fourteen days.
    BiWeekly,
    /// The 1st to the 15th of a month, or the 16th to its last day.
    SemiMonthly,
    /// One month; with `start_day` 1 a range ends with the calendar month,
    /// with any other value it ends one month after the previous range did.
    Monthly { start_day: usize },
    /// Three calendar months.
    Quarterly,
    /// Six months.
    SemiAnnual,
    /// One year.
    Annual,
}

/// A date range as mathematics: an inclusive span of dates with a cadence.
pub struct RangeModel {
    pub start: CivilDate,
    pub end: CivilDate,
    pub cadence: Cadence,
}

/// Number of days in the range, both boundary dates included.
pub open spec fn length_in_days(r: RangeModel) -> int {
    day_number(r.end) - day_number(r.start) + 1
}

/// The day of the given number in the month of `c`.
pub open spec fn on_day(c: CivilDate, day: int) -> CivilDate {
    CivilDate { year: c.year, month: c.month, day }
}

/// What the cadence demands of the boundaries beyond their order. Every
/// constructor establishes it and every step to a neighbour keeps it.
pub open spec fn aligned(r: RangeModel) -> bool {
    match r.cadence {
        Cadence::Weekly => length_in_days(r) == 7,
        Cadence::BiWeekly => length_in_days(r) == 14,
        Cadence::SemiMonthly => {
            &&& r.start.year == r.end.year
            &&& r.start.month == r.end.month
            &&& (r.start.day == 1 && r.end.day == 15) || (r.start.day == 16 && r.end.day
                == days_in_month(r.end.year, r.end.month))
        },
        Cadence::Quarterly => r.start.day == 1 && r.end == month_end(plus_months(r.start, 2)),
        _ => true,
    }
}

/// The range is a span of existing dates in chronological order that fits its cadence.
pub open spec fn model_wf(r: RangeModel) -> bool {
    &&& is_valid_date(r.start)
    &&& is_valid_date(r.end)
    &&& date_le(r.start, r.end)
    &&& aligned(r)
}

/// Both boundary dates can be stored.
pub open spec fn in_bounds(r: RangeModel) -> bool {
    in_calendar_range(r.start) && in_calendar_range(r.end)
}

/// The range moved by `days` days.
pub open spec fn shifted_by_days(r: RangeModel, days: int) -> RangeModel {
    RangeModel {
        start: plus_days(r.start, days),
        end: plus_days(r.end, days),
        cadence: r.cadence,
    }
}

/// The range moved by `months` months, each boundary by itself.
pub open spec fn shifted_by_months(r: RangeModel, months: int) -> RangeModel {
    RangeModel {
        start: plus_months(r.start, months),
        end: plus_months(r.end, months),
        cadence: r.cadence,
    }
}

/// The range with the same boundaries and the given cadence.
pub open spec fn with_cadence(r: RangeModel, cadence: Cadence) -> RangeModel {
    RangeModel { start: r.start, end: r.end, cadence }
}

/// Forward step of the cadences of fixed length (arbitrary, weekly,
/// bi-weekly): both boundaries move by the length of the range.
pub open spec fn fixed_length_next(r: RangeModel) -> RangeModel {
    shifted_by_days(r, length_in_days(r))
}

/// Backward step of the cadences of fixed length.
pub open spec fn fixed_length_prior(r: RangeModel) -> RangeModel {
    shifted_by_days(r, -length_in_days(r))
}

/// Forward step of the semi-monthly cadence: after the 15th comes the
/// 16th to the end of the month, after that the 1st to the 15th of the
/// following month.
pub open spec fn semi_monthly_next(r: RangeModel) -> RangeModel {
    if r.end.day == 15 {
        RangeModel {
            start: on_day(r.end, 16),
            end: month_end(r.end),
            cadence: Cadence::SemiMonthly,
        }
    } else {
        let first = month_start(plus_months(month_start(r.end), 1));
        RangeModel { start: first, end: on_day(first, 15), cadence: Cadence::SemiMonthly }
    }
}

/// Backward step of the semi-monthly cadence: before the 16th comes the
/// 1st to the 15th of the same month, before the 1st the 16th to the end
/// of the month before.
pub open spec fn semi_monthly_prior(r: RangeModel) -> RangeModel {
    if r.start.day == 16 {
        RangeModel {
            start: on_day(r.start, 1),
            end: on_day(r.start, 15),
            cadence: Cadence::SemiMonthly,
        }
    } else {
        let last = previous_day(r.start);
        RangeModel { start: on_day(last, 16), end: last, cadence: Cadence::SemiMonthly }
    }
}

/// Forward step of the monthly cadence: the next range starts on the day
/// after the end; with start day 1 it ends with that month, otherwise one
/// month after the old end.
pub open spec fn monthly_next(r: RangeModel, start_day: usize) -> RangeModel {
    RangeModel {
        start: next_day(r.end),
        end: if start_day == 1 {
            month_end(next_day(r.end))
        } else {
            plus_months(r.end, 1)
        },
        cadence: Cadence::Monthly { start_day },
    }
}

/// Backward step of the monthly cadence: the range before ends on the day
/// before the start; with start day 1 it starts with that month,
/// otherwise one month before the old start.
pub open spec fn monthly_prior(r: RangeModel, start_day: usize) -> RangeModel {
    RangeModel {
        start: if start_day == 1 {
            month_start(previous_day(r.start))
        } else {
            plus_months(r.start, -1)
        },
        end: previous_day(r.start),
        cadence: Cadence::Monthly { start_day },
    }
}

/// Step of the quarterly cadence by `months` (3 forward, -3 backward):
/// the start moves by that many months, the end to the last day of the
/// month that many months from its own.
pub open spec fn quarterly_step(r: RangeModel, months: int) -> RangeModel {
    RangeModel {
        start: plus_months(r.start, months),
        end: month_end(plus_months(month_start(r.end), months)),
        cadence: Cadence::Quarterly,
    }
}

/// Step of the semi-annual cadence by `months` (6 forward, -6 backward).
pub open spec fn semi_annual_step(r: RangeModel, months: int) -> RangeModel {
    with_cadence(shifted_by_months(r, months), Cadence::SemiAnnual)
}

/// Step of the annual cadence by `years` (1 forward, -1 backward).
pub open spec fn annual_step(r: RangeModel, years: int) -> RangeModel {
    with_cadence(shifted_by_months(r, 12 * years), Cadence::Annual)
}

/// The range that follows `r` in its cadence.
#[verifier::opaque]
pub open spec fn next_of(r: RangeModel) -> RangeModel {
    match r.cadence {
        Cadence::Arbitrary => fixed_length_next(r),
        Cadence::Weekly => fixed_length_next(r),
        Cadence::BiWeekly => fixed_length_next(r),
        Cadence::SemiMonthly => semi_monthly_next(r),
        Cadence::Monthly { start_day } => monthly_next(r, start_day),
        Cadence::Quarterly => quarterly_step(r, 3),
        Cadence::SemiAnnual => semi_annual_step(r, 6),
        Cadence::Annual => annual_step(r, 1),
    }
}

/// The range that precedes `r` in its cadence.
#[verifier::opaque]
pub open spec fn prior_of(r: RangeModel) -> RangeModel {
    match r.cadence {
        Cadence::Arbitrary => fixed_length_prior(r),
        Cadence::Weekly => fixed_length_prior(r),
        Cadence::BiWeekly => fixed_length_prior(r),
        Cadence::SemiMonthly => semi_monthly_prior(r),
        Cadence::Monthly { start_day } => monthly_prior(r, start_day),
        Cadence::Quarterly => quarterly_step(r, -3),
        Cadence::SemiAnnual => semi_annual_step(r, -6),
        Cadence::Annual => annual_step(r, -1),
    }
}

/// The range reached from `r` by `n` steps forward.
pub open spec fn next_n_of(r: RangeModel, n: nat) -> RangeModel
    decreases n,
{
    if n == 0 {
        r
    } else {
        next_of(next_n_of(r, (n - 1) as nat))
    }
}

/// The range reached from `r` by `n` steps backward.
pub open spec fn prior_n_of(r: RangeModel, n: nat) -> RangeModel
    decreases n,
{
    if n == 0 {
        r
    } else {
        prior_of(prior_n_of(r, (n - 1) as nat))
    }
}

/// Every range up to `n` steps forward of `r` can be stored.
pub open spec fn can_step_forward(r: RangeModel, n: nat) -> bool {
    forall|i: nat| 1 <= i <= n ==> in_bounds(#[trigger] next_n_of(r, i))
}

/// Every range up to `n` steps backward of `r` can be stored.
pub open spec fn can_step_backward(r: RangeModel, n: nat) -> bool {
    forall|i: nat| 1 <= i <= n ==> in_bounds(#[trigger] prior_n_of(r, i))
}

/// Number of steps that `next_n` and `prior_n` take for a requested
/// number: the request itself, but one step where none is requested.
pub open spec fn steps_taken(number: usize) -> nat {
    if number == 0 {
        1
    } else {
        number as nat
    }
}

/// The `count` ranges before `r`, oldest first, followed by `r` itself
/// where `inclusive` is set.
pub open spec fn ranges_before_of(r: RangeModel, count: nat, inclusive: bool) -> Seq<RangeModel> {
    Seq::new(
        if inclusive {
            count + 1
        } else {
            count
        },
        |i: int| prior_n_of(r, (count - i) as nat),
    )
}

/// The `count` ranges after `r`, oldest first, preceded by `r` itself
/// where `inclusive` is set.
pub open spec fn ranges_after_of(r: RangeModel, count: nat, inclusive: bool) -> Seq<RangeModel> {
    Seq::new(
        if inclusive {
            count + 1
        } else {
            count
        },
        |i: int|
            next_n_of(
                r,
                if inclusive {
                    i as nat
                } else {
                    (i + 1) as nat
                },
            ),
    )
}

/// The `before` ranges before `r`, then `r`, then the `after` ranges after it.
pub open spec fn window_of(r: RangeModel, before: nat, after: nat) -> Seq<RangeModel> {
    ranges_before_of(r, before, true) + ranges_after_of(r, after, false)
}

/// `date` lies in the range.
pub open spec fn contains_date_spec(r: RangeModel, date: CivilDate) -> bool {
    date_le(r.start, date) && date_le(date, r.end)
}

/// `inner` lies in `outer` with both its boundaries.
pub open spec fn contains_range_spec(outer: RangeModel, inner: RangeModel) -> bool {
    date_le(outer.start, inner.start) && date_le(inner.end, outer.end)
}

/// The two ranges share at least one date.
pub open spec fn overlaps_spec(a: RangeModel, b: RangeModel) -> bool {
    date_le(a.start, b.end) && date_le(b.start, a.end)
}

/// The dates of the range in chronological order.
pub open spec fn dates_of(r: RangeModel) -> Seq<CivilDate> {
    Seq::new(length_in_days(r) as nat, |i: int| plus_days(r.start, i))
}

} // verus!
