use dateranges::date::Date;
use dateranges::daterange::{
    AnnualDateRange, ArbitraryDateRange, BiWeeklyDateRange, DateRange, MonthlyDateRange,
    QuarterlyDateRange, RangeError, SemiAnnualDateRange, SemiMonthlyDateRange, WeeklyDateRange,
};
use dateranges::dateutils::{add_days, last_day_of_month};

fn ymd(year: i32, month: u32, day: u32) -> Date {
    Date::from_ymd_opt(year, month, day).unwrap()
}

fn assert_range(range: &DateRange, start: Date, end: Date) {
    assert_eq!(range.start_date(), start);
    assert_eq!(range.end_date(), end);
}

/// One range of every cadence, each from before the leap-year February of 2028.
fn samples() -> Vec<DateRange> {
    vec![
        ArbitraryDateRange::of(ymd(2027, 11, 3), ymd(2027, 11, 25)).unwrap(),
        ArbitraryDateRange::date(ymd(2027, 12, 30)),
        WeeklyDateRange::with_start_date(ymd(2027, 12, 6)),
        BiWeeklyDateRange::with_start_date(ymd(2027, 12, 6)),
        SemiMonthlyDateRange::with_end_date(ymd(2027, 11, 15)).unwrap(),
        SemiMonthlyDateRange::with_end_date(ymd(2027, 11, 30)).unwrap(),
        MonthlyDateRange::with_end_date_on_first(ymd(2027, 11, 30)),
        MonthlyDateRange::with_end_date_and_start_day(ymd(2027, 11, 14), 15),
        QuarterlyDateRange::with_start_date(ymd(2027, 10, 1)),
        SemiAnnualDateRange::with_start_date(ymd(2027, 7, 15)),
        AnnualDateRange::with_start_date(ymd(2024, 1, 1)),
    ]
}

#[test]
fn next_then_prior_returns_for_every_cadence() {
    for sample in samples() {
        let mut range = sample;
        for _ in 0..30 {
            let next = range.next();
            assert_eq!(next.prior(), range);
            assert_eq!(next.cadence(), range.cadence());
            assert!(next.start_date() > range.end_date());
            range = next;
        }
    }
}

#[test]
fn prior_then_next_returns_for_every_cadence() {
    for sample in samples() {
        let mut range = sample.next_n(30);
        for _ in 0..60 {
            let prior = range.prior();
            assert_eq!(prior.next(), range);
            assert_eq!(prior.cadence(), range.cadence());
            assert!(prior.end_date() < range.start_date());
            range = prior;
        }
    }
}

#[test]
fn round_trip_fails_where_a_day_of_month_is_lost() {
    let leap = AnnualDateRange::with_start_date(ymd(2028, 2, 29));
    assert_ne!(leap.next().prior(), leap);
    assert_range(&leap.next().prior(), ymd(2028, 2, 28), ymd(2029, 2, 28));
    let second_half = SemiAnnualDateRange::with_start_date(ymd(2027, 7, 1));
    assert_range(&second_half, ymd(2027, 7, 1), ymd(2027, 12, 31));
    assert_range(&second_half.next(), ymd(2028, 1, 1), ymd(2028, 6, 30));
    assert_range(&second_half.next().prior(), ymd(2027, 7, 1), ymd(2027, 12, 30));
    let half = SemiAnnualDateRange::with_start_date(ymd(2025, 8, 31));
    assert_range(&half, ymd(2025, 8, 31), ymd(2026, 2, 27));
    assert_range(&half.next(), ymd(2026, 2, 28), ymd(2026, 8, 27));
    assert_range(&half.next().prior(), ymd(2025, 8, 28), ymd(2026, 2, 27));
    let month = MonthlyDateRange::with_end_date_and_start_day(ymd(2025, 1, 30), 31);
    assert_range(&month.next(), ymd(2025, 1, 31), ymd(2025, 2, 28));
    assert_range(&month.next().next(), ymd(2025, 3, 1), ymd(2025, 3, 28));
    assert_range(&month.next().next().prior(), ymd(2025, 2, 1), ymd(2025, 2, 28));
}

#[test]
fn monthly_ranges_on_first_end_with_their_month() {
    let mut range = MonthlyDateRange::with_end_date_on_first(ymd(2027, 11, 30));
    for _ in 0..30 {
        range = range.next();
        assert_eq!(range.start_date().day(), 1);
        assert_eq!(range.end_date(), last_day_of_month(range.start_date()));
    }
    for _ in 0..60 {
        range = range.prior();
        assert_eq!(range.start_date().day(), 1);
        assert_eq!(range.end_date(), last_day_of_month(range.start_date()));
    }
    let february = MonthlyDateRange::with_end_date_on_first(ymd(2028, 1, 31)).next();
    assert_range(&february, ymd(2028, 2, 1), ymd(2028, 2, 29));
}

#[test]
fn weekly_and_bi_weekly_ranges_keep_their_length() {
    let mut week = WeeklyDateRange::with_end_date(ymd(2027, 12, 20));
    let mut fortnight = BiWeeklyDateRange::with_end_date(ymd(2027, 12, 20));
    assert_eq!(week.len(), 7);
    assert_eq!(fortnight.len(), 14);
    for _ in 0..30 {
        week = week.next();
        fortnight = fortnight.next();
        assert_eq!(week.len(), 7);
        assert_eq!(fortnight.len(), 14);
        assert_eq!(week.dates().len(), 7);
    }
    for _ in 0..60 {
        week = week.prior();
        fortnight = fortnight.prior();
        assert_eq!(week.len(), 7);
        assert_eq!(fortnight.len(), 14);
    }
}

#[test]
fn next_n_and_prior_n_take_that_many_steps() {
    let range = MonthlyDateRange::with_end_date_on_first(ymd(2025, 8, 31));
    assert_range(&range.next_n(1), ymd(2025, 9, 1), ymd(2025, 9, 30));
    assert_range(&range.next_n(2), ymd(2025, 10, 1), ymd(2025, 10, 31));
    assert_range(&range.next_n(5), ymd(2026, 1, 1), ymd(2026, 1, 31));
    assert_range(&range.prior_n(1), ymd(2025, 7, 1), ymd(2025, 7, 31));
    assert_range(&range.prior_n(8), ymd(2024, 12, 1), ymd(2024, 12, 31));
    assert_eq!(range.next_n(3), range.next().next().next());
    assert_eq!(range.prior_n(3), range.prior().prior().prior());
}

#[test]
fn a_request_for_no_step_takes_one_step() {
    let range = WeeklyDateRange::with_start_date(ymd(2025, 8, 4));
    assert_eq!(range.next_n(0), range.next());
    assert_eq!(range.prior_n(0), range.prior());
    assert_range(&range.next_n(0), ymd(2025, 8, 11), ymd(2025, 8, 17));
    assert_range(&range.prior_n(0), ymd(2025, 7, 28), ymd(2025, 8, 3));
}

#[test]
fn ranges_before_and_after_come_oldest_first() {
    let range = QuarterlyDateRange::with_start_date(ymd(2025, 4, 1));
    let before = range.ranges_before(3);
    assert_eq!(before.len(), 3);
    assert_range(&before[0], ymd(2024, 7, 1), ymd(2024, 9, 30));
    assert_range(&before[1], ymd(2024, 10, 1), ymd(2024, 12, 31));
    assert_range(&before[2], ymd(2025, 1, 1), ymd(2025, 3, 31));
    let before_inclusive = range.ranges_before_inclusive(2);
    assert_eq!(before_inclusive.len(), 3);
    assert_range(&before_inclusive[0], ymd(2024, 10, 1), ymd(2024, 12, 31));
    assert_range(&before_inclusive[1], ymd(2025, 1, 1), ymd(2025, 3, 31));
    assert_eq!(before_inclusive[2], range);
    let after = range.ranges_after(2);
    assert_eq!(after.len(), 2);
    assert_range(&after[0], ymd(2025, 7, 1), ymd(2025, 9, 30));
    assert_range(&after[1], ymd(2025, 10, 1), ymd(2025, 12, 31));
    let after_inclusive = range.ranges_after_inclusive(1);
    assert_eq!(after_inclusive.len(), 2);
    assert_eq!(after_inclusive[0], range);
    assert_range(&after_inclusive[1], ymd(2025, 7, 1), ymd(2025, 9, 30));
    assert!(range.ranges_before(0).is_empty());
    assert!(range.ranges_after(0).is_empty());
    assert_eq!(range.ranges_before_inclusive(0), vec![range]);
    assert_eq!(range.ranges_after_inclusive(0), vec![range]);
}

#[test]
fn window_holds_the_range_once_between_its_neighbours() {
    for sample in samples() {
        for before in 0..4usize {
            for after in 0..4usize {
                let window = sample.ranges_window(before, after);
                assert_eq!(window.len(), before + after + 1);
                assert_eq!(window[before], sample);
                assert_eq!(window.iter().filter(|r| **r == sample).count(), 1);
                for i in 0..before {
                    assert_eq!(window[i], sample.prior_n(before - i));
                }
                for i in 1..=after {
                    assert_eq!(window[before + i], sample.next_n(i));
                }
                for pair in window.windows(2) {
                    assert!(pair[0].start_date() < pair[1].start_date());
                }
            }
        }
    }
}

#[test]
fn window_of_weeks_is_contiguous() {
    let week = WeeklyDateRange::with_start_date(ymd(2025, 8, 4));
    let window = week.ranges_window(2, 1);
    assert_eq!(window.len(), 4);
    assert_range(&window[0], ymd(2025, 7, 21), ymd(2025, 7, 27));
    assert_range(&window[1], ymd(2025, 7, 28), ymd(2025, 8, 3));
    assert_range(&window[2], ymd(2025, 8, 4), ymd(2025, 8, 10));
    assert_range(&window[3], ymd(2025, 8, 11), ymd(2025, 8, 17));
}

#[test]
fn range_containing_date_snaps_a_date_onto_the_grid() {
    let week = WeeklyDateRange::with_start_date(ymd(2025, 8, 4));
    assert_eq!(week.range_containing_date(ymd(2025, 8, 4)), Some(week));
    assert_eq!(week.range_containing_date(ymd(2025, 8, 10)), Some(week));
    let later = week.range_containing_date(ymd(2025, 9, 17)).unwrap();
    assert_range(&later, ymd(2025, 9, 15), ymd(2025, 9, 21));
    let earlier = week.range_containing_date(ymd(2024, 2, 29)).unwrap();
    assert_range(&earlier, ymd(2024, 2, 26), ymd(2024, 3, 3));
    let month = MonthlyDateRange::with_end_date_on_first(ymd(2025, 8, 31));
    let found = month.range_containing_date(ymd(2028, 2, 29)).unwrap();
    assert_range(&found, ymd(2028, 2, 1), ymd(2028, 2, 29));
    let half = SemiMonthlyDateRange::with_end_date(ymd(2025, 8, 15)).unwrap();
    let found = half.range_containing_date(ymd(2024, 12, 31)).unwrap();
    assert_range(&found, ymd(2024, 12, 16), ymd(2024, 12, 31));
    let quarter = QuarterlyDateRange::with_start_date(ymd(2025, 1, 1));
    let found = quarter.range_containing_date(ymd(2025, 11, 11)).unwrap();
    assert_range(&found, ymd(2025, 10, 1), ymd(2025, 12, 31));
}

#[test]
fn range_containing_date_finds_every_date_near_a_range() {
    for sample in samples() {
        let days = sample.len() as i64;
        let mut offset = -2 * days;
        while offset <= 3 * days {
            let date = add_days(sample.start_date(), offset);
            if let Some(found) = sample.range_containing_date(date) {
                assert!(found.contains_date(date));
                assert_eq!(found.cadence(), sample.cadence());
            }
            offset += 1;
        }
    }
}

#[test]
fn range_containing_date_reports_a_date_that_falls_between_ranges() {
    // Of these annual ranges the second ends on February 28 of the leap
    // year 2028 and the third starts on March 1.
    let year = AnnualDateRange::with_start_date(ymd(2026, 3, 1));
    assert_range(&year, ymd(2026, 3, 1), ymd(2027, 2, 28));
    assert_range(&year.next(), ymd(2027, 3, 1), ymd(2028, 2, 28));
    assert_range(&year.next().next(), ymd(2028, 3, 1), ymd(2029, 2, 28));
    assert_eq!(year.range_containing_date(ymd(2028, 2, 29)), None);
    assert!(year.range_containing_date(ymd(2028, 2, 28)).is_some());
    assert!(year.range_containing_date(ymd(2028, 3, 1)).is_some());
    let half = SemiAnnualDateRange::with_start_date(ymd(2025, 9, 1));
    assert_range(&half, ymd(2025, 9, 1), ymd(2026, 2, 28));
    assert_range(&half.next(), ymd(2026, 3, 1), ymd(2026, 8, 28));
    assert_eq!(half.range_containing_date(ymd(2026, 8, 30)), None);
}

#[test]
fn range_containing_date_stops_at_the_edge_of_the_calendar() {
    let year = AnnualDateRange::with_start_date(ymd(262141, 7, 1));
    assert_range(&year, ymd(262141, 7, 1), ymd(262142, 6, 30));
    assert!(!year.can_next());
    assert!(year.can_prior());
    assert_eq!(year.range_containing_date(ymd(262142, 12, 31)), None);
    let first = AnnualDateRange::with_end_date(ymd(-262142, 6, 30));
    assert_range(&first, ymd(-262143, 7, 1), ymd(-262142, 6, 30));
    assert!(!first.can_prior());
    assert!(first.can_next());
    assert_eq!(first.range_containing_date(ymd(-262143, 1, 1)), None);
    let week = WeeklyDateRange::with_end_date(ymd(262142, 12, 30));
    assert!(!week.can_next());
    assert_eq!(week.range_containing_date(ymd(262142, 12, 31)), None);
    let last_month = MonthlyDateRange::with_end_date_on_first(ymd(262142, 12, 31));
    assert!(!last_month.can_next());
    assert!(last_month.can_prior());
    assert!(last_month.prior().can_next());
}

#[test]
fn ranges_containing_span_covers_the_span() {
    let month = MonthlyDateRange::with_end_date_on_first(ymd(2025, 8, 31));
    let ranges = month.ranges_containing_span(ymd(2025, 6, 15), ymd(2025, 10, 2)).unwrap();
    assert_eq!(ranges.len(), 5);
    assert_range(&ranges[0], ymd(2025, 6, 1), ymd(2025, 6, 30));
    assert_range(&ranges[1], ymd(2025, 7, 1), ymd(2025, 7, 31));
    assert_range(&ranges[2], ymd(2025, 8, 1), ymd(2025, 8, 31));
    assert_range(&ranges[3], ymd(2025, 9, 1), ymd(2025, 9, 30));
    assert_range(&ranges[4], ymd(2025, 10, 1), ymd(2025, 10, 31));
    let single = month.ranges_containing_span(ymd(2025, 8, 5), ymd(2025, 8, 5)).unwrap();
    assert_eq!(single, vec![month]);
    let to_month_end = month.ranges_containing_span(ymd(2025, 9, 30), ymd(2025, 10, 31)).unwrap();
    assert_eq!(to_month_end.len(), 2);
    let week = WeeklyDateRange::with_start_date(ymd(2025, 8, 4));
    let weeks = week.ranges_containing_span(ymd(2025, 8, 10), ymd(2025, 8, 11)).unwrap();
    assert_eq!(weeks, vec![week, week.next()]);
}

#[test]
fn ranges_containing_span_rejects_a_span_that_runs_backwards() {
    let month = MonthlyDateRange::with_end_date_on_first(ymd(2025, 8, 31));
    assert_eq!(
        month.ranges_containing_span(ymd(2025, 8, 5), ymd(2025, 8, 4)),
        Err(RangeError::InvalidRange)
    );
    assert_eq!(
        month.ranges_containing_span(ymd(2026, 1, 1), ymd(2025, 12, 31)),
        Err(RangeError::InvalidRange)
    );
}

#[test]
fn ranges_containing_span_reports_what_the_grid_does_not_cover() {
    let year = AnnualDateRange::with_start_date(ymd(2026, 3, 1));
    assert_eq!(
        year.ranges_containing_span(ymd(2028, 2, 29), ymd(2028, 3, 5)),
        Err(RangeError::NotCovered)
    );
    let late = AnnualDateRange::with_start_date(ymd(262141, 7, 1));
    assert_eq!(
        late.ranges_containing_span(ymd(262142, 1, 1), ymd(262142, 12, 31)),
        Err(RangeError::NotCovered)
    );
    // A date between two ranges does not stop the list where it is the end of the span.
    let covered = year.ranges_containing_span(ymd(2027, 1, 1), ymd(2028, 2, 29)).unwrap();
    assert_eq!(covered.len(), 3);
    assert_range(&covered[2], ymd(2028, 3, 1), ymd(2029, 2, 28));
}
