//! Ranges of seven days.

use vstd::arithmetic::div_mod::lemma_mod_multiples_vanish;
use vstd::prelude::*;

use crate::calendar::{
    day_number, in_calendar_range, lemma_day_number_order, lemma_plus_days_range, plus_days,
    CivilDate,
};
use crate::date::{weekday_index, Date, Weekday};
use crate::dateutils::add_days;
use crate::daterange::date_range::DateRange;
use crate::daterange::model::{in_bounds, Cadence, RangeModel};

verus! {

/// The seven days that start on `start`.
pub open spec fn week_starting(start: CivilDate) -> RangeModel {
    RangeModel { start, end: plus_days(start, 6), cadence: Cadence::Weekly }
}

/// The seven days that end on `end`.
pub open spec fn week_ending(end: CivilDate) -> RangeModel {
    RangeModel { start: plus_days(end, -6), end, cadence: Cadence::Weekly }
}

/// Days from `c` to the next date that falls on `day`; 0 where `c` falls on it.
pub open spec fn days_until_weekday(c: CivilDate, day: Weekday) -> int {
    (day.index() - weekday_index(c)) % 7
}

/// Constructor of weekly ranges.
pub struct WeeklyDateRange;

impl WeeklyDateRange {
    /// The seven days that start on `start_date`.
    pub fn with_start_date(start_date: Date) -> (range: DateRange)
        requires
            start_date.wf(),
            in_calendar_range(plus_days(start_date@, 6)),
        ensures
            range.wf(),
            range@ == week_starting(start_date@),
    {
        proof {
            lemma_plus_days_range(start_date@, 6);
            lemma_day_number_order(start_date@, plus_days(start_date@, 6));
        }
        let end = add_days(start_date, 6);
        DateRange::assemble(start_date, end, Cadence::Weekly)
    }

    /// The seven days that end on `end_date`.
    pub fn with_end_date(end_date: Date) -> (range: DateRange)
        requires
            end_date.wf(),
            in_calendar_range(plus_days(end_date@, -6)),
        ensures
            range.wf(),
            range@ == week_ending(end_date@),
    {
        proof {
            lemma_plus_days_range(end_date@, -6);
            lemma_day_number_order(plus_days(end_date@, -6), end_date@);
        }
        let start = add_days(end_date, -6);
        DateRange::assemble(start, end_date, Cadence::Weekly)
    }

    /// The week that contains `target` and ends on the weekday `end_day`:
    /// it ends on `target` itself where that falls on `end_day`, otherwise
    /// on the next date that does.
    pub fn with_target_date(target: Date, end_day: Weekday) -> (range: DateRange)
        requires
            target.wf(),
            in_bounds(week_ending(plus_days(target@, days_until_weekday(target@, end_day)))),
        ensures
            range.wf(),
            range@ == week_ending(plus_days(target@, days_until_weekday(target@, end_day))),
            weekday_index(range@.end) == end_day.index(),
    {
        let offset = calculate_day_of_week_offset(target, end_day);
        proof {
            lemma_plus_days_range(target@, offset as int);
            lemma_offset_reaches_weekday(day_number(target@) - 1, end_day.index());
        }
        let end = add_days(target, offset);
        Self::with_end_date(end)
    }
}

/// Going on from a day of the week by the days that are missing to
/// another reaches that other day of the week.
proof fn lemma_offset_reaches_weekday(n: int, d: int)
    requires
        0 <= d < 7,
    ensures
        (n + (d - n % 7) % 7) % 7 == d,
{
    let w = n % 7;
    let o = (d - w) % 7;
    assert(o == if d >= w { d - w } else { d - w + 7 });
    assert(n + o == 7 * (n / 7) + (w + o));
    if d >= w {
        lemma_mod_multiples_vanish(n / 7, d, 7);
    } else {
        lemma_mod_multiples_vanish(n / 7 + 1, d, 7);
        assert(n + o == 7 * (n / 7 + 1) + d);
    }
}

/// Days from `date` to the next date that falls on `end_day`.
fn calculate_day_of_week_offset(date: Date, end_day: Weekday) -> (offset: i64)
    requires
        date.wf(),
    ensures
        offset == days_until_weekday(date@, end_day),
        0 <= offset < 7,
{
    let mut offset: i64 = end_day.num_days_from_monday() as i64
        - date.weekday().num_days_from_monday() as i64;
    if offset < 0 {
        offset += 7;
    }
    offset
}

} // verus!
