//! The single dates of a range.

use vstd::prelude::*;

use crate::calendar::{
    date_le, day_number, in_calendar_range, lemma_calendar_range, lemma_day_number_order,
    lemma_next_day, lemma_plus_days_range, lemma_plus_one_day, next_day, plus_days, CivilDate,
    MAX_DAY_NUMBER, MIN_DAY_NUMBER,
};
use crate::date::{weekday_index, Date, Weekday};
use crate::dateutils::{add_days, day_after};
use crate::daterange::date_range::DateRange;
use crate::daterange::model::{
    dates_of, in_bounds, length_in_days, model_wf, overlaps_spec, RangeModel,
};

verus! {

/// The models of a list of dates.
pub open spec fn date_models(dates: Seq<Date>) -> Seq<CivilDate> {
    dates.map_values(|d: Date| d@)
}

/// Every date of the list exists and can be stored.
pub open spec fn all_dates_wf(dates: Seq<Date>) -> bool {
    forall|i: int| 0 <= i < dates.len() ==> (#[trigger] dates[i]).wf()
}

/// The dates of the range that fall on the weekday `day`, in chronological order.
pub open spec fn dates_on_weekday(r: RangeModel, day: Weekday) -> Seq<CivilDate> {
    dates_of(r).filter(|c: CivilDate| weekday_index(c) == day.index())
}

/// Walks through the dates of a range in chronological order.
pub struct DateRangeIter {
    current: Date,
    end: Date,
    finished: bool,
}

impl View for DateRangeIter {
    type V = Seq<CivilDate>;

    /// The dates that are still to come.
    closed spec fn view(&self) -> Seq<CivilDate> {
        if self.finished {
            Seq::empty()
        } else {
            Seq::new(
                (day_number(self.end@) - day_number(self.current@) + 1) as nat,
                |i: int| plus_days(self.current@, i),
            )
        }
    }
}

impl DateRangeIter {
    /// Unless the walk is over, it stands on a date at or before its last date.
    pub closed spec fn wf(&self) -> bool {
        !self.finished ==> self.current.wf() && self.end.wf() && date_le(
            self.current@,
            self.end@,
        )
    }

    /// The next date of the walk, or `None` when all dates have been given.
    pub fn next(&mut self) -> (item: Option<Date>)
        requires
            old(self).wf(),
        ensures
            final(self).wf(),
            match item {
                Some(date) => {
                    &&& old(self)@.len() > 0
                    &&& date.wf()
                    &&& date@ == old(self)@[0]
                    &&& final(self)@ == old(self)@.drop_first()
                },
                None => old(self)@.len() == 0 && final(self)@ == old(self)@,
            },
    {
        if self.finished {
            return None;
        }
        let result = self.current;
        proof {
            lemma_day_number_order(self.current@, self.end@);
            lemma_plus_one_day(self.current@);
            lemma_next_day(self.current@);
            Date::lemma_view_injective(self.current, self.end);
        }
        if self.current == self.end {
            self.finished = true;
        } else {
            proof {
                lemma_day_number_order(next_day(self.current@), self.end@);
            }
            self.current = day_after(self.current);
        }
        assert(self@ =~= old(self)@.drop_first());
        Some(result)
    }
}

impl DateRange {
    /// A walk through the dates of the range, from the first to the last.
    pub fn iter(&self) -> (walk: DateRangeIter)
        requires
            self.wf(),
        ensures
            walk.wf(),
            walk@ == dates_of(self@),
    {
        DateRangeIter { current: self.start_date(), end: self.end_date(), finished: false }
    }

    /// The dates of the range in chronological order.
    pub fn dates(&self) -> (dates: Vec<Date>)
        requires
            self.wf(),
        ensures
            all_dates_wf(dates@),
            date_models(dates@) == dates_of(self@),
    {
        let count = self.len();
        let start = self.start_date();
        let mut dates: Vec<Date> = Vec::new();
        let mut index: usize = 0;
        while index < count
            invariant
                self.wf(),
                start.wf(),
                start@ == self@.start,
                count == length_in_days(self@),
                count <= MAX_DAY_NUMBER - MIN_DAY_NUMBER + 1,
                index <= count,
                dates.len() == index,
                forall|i: int|
                    0 <= i < index ==> (#[trigger] dates[i]).wf() && dates[i]@ == plus_days(
                        self@.start,
                        i,
                    ),
            decreases count - index,
        {
            proof {
                lemma_within_range(self@, index as int);
            }
            dates.push(add_days(start, index as i64));
            index += 1;
        }
        assert(date_models(dates@) =~= dates_of(self@));
        dates
    }

    /// The date at position `index` of the range, counted from 0; `None`
    /// where the range has no such position.
    pub fn date_at(&self, index: usize) -> (date: Option<Date>)
        requires
            self.wf(),
        ensures
            date.is_some() <==> index < length_in_days(self@),
            date.is_some() ==> date.unwrap().wf() && date.unwrap()@ == dates_of(self@)[index as int],
    {
        if index < self.len() {
            proof {
                lemma_within_range(self@, index as int);
            }
            Some(add_days(self.start_date(), index as i64))
        } else {
            None
        }
    }

    /// The dates of the range that fall on the weekday `day`, in chronological order.
    pub fn dates_for_day(&self, day: Weekday) -> (dates: Vec<Date>)
        requires
            self.wf(),
        ensures
            all_dates_wf(dates@),
            date_models(dates@) == dates_on_weekday(self@, day),
    {
        let all = self.dates();
        let ghost on_day = |c: CivilDate| weekday_index(c) == day.index();
        let mut dates: Vec<Date> = Vec::new();
        let mut index: usize = 0;
        while index < all.len()
            invariant
                index <= all.len(),
                all_dates_wf(all@),
                all_dates_wf(dates@),
                on_day == |c: CivilDate| weekday_index(c) == day.index(),
                date_models(dates@) == date_models(all@).take(index as int).filter(on_day),
            decreases all.len() - index,
        {
            let date = all[index];
            proof {
                let seen = date_models(all@).take(index as int);
                assert(date_models(all@).take(index + 1) =~= seen.push(date@));
                Seq::lemma_filter_push(seen, date@, on_day);
            }
            let ghost before = dates@;
            if date.weekday().num_days_from_monday() == day.num_days_from_monday() {
                dates.push(date);
                assert(date_models(dates@) =~= date_models(before).push(date@));
            }
            index += 1;
        }
        assert(date_models(all@).take(all.len() as int) =~= date_models(all@));
        dates
    }

    /// Whether the range shares at least one date with one of `date_ranges`.
    pub fn overlaps_any(&self, date_ranges: &[DateRange]) -> (shared: bool)
        requires
            self.wf(),
            forall|i: int| 0 <= i < date_ranges@.len() ==> (#[trigger] date_ranges@[i]).wf(),
        ensures
            shared == exists|i: int|
                0 <= i < date_ranges@.len() && overlaps_spec(self@, (#[trigger] date_ranges@[i])@),
    {
        let mut index: usize = 0;
        while index < date_ranges.len()
            invariant
                self.wf(),
                index <= date_ranges@.len(),
                forall|i: int| 0 <= i < date_ranges@.len() ==> (#[trigger] date_ranges@[i]).wf(),
                forall|i: int|
                    0 <= i < index ==> !overlaps_spec(self@, (#[trigger] date_ranges@[i])@),
            decreases date_ranges@.len() - index,
        {
            if self.overlaps(&date_ranges[index]) {
                return true;
            }
            index += 1;
        }
        false
    }
}

/// The date at a position of a range that can be stored can be stored itself.
proof fn lemma_within_range(r: RangeModel, index: int)
    requires
        model_wf(r),
        in_bounds(r),
        0 <= index < length_in_days(r),
    ensures
        in_calendar_range(plus_days(r.start, index)),
{
    lemma_plus_days_range(r.start, index);
    lemma_calendar_range(r.start);
    lemma_calendar_range(r.end);
}

} // verus!
