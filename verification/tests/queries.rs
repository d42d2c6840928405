use dateranges::date::{Date, Weekday};
use dateranges::daterange::{
    ArbitraryDateRange, DateRange, MonthlyDateRange, QuarterlyDateRange, WeeklyDateRange,
};
use dateranges::dateutils::add_days;

fn ymd(year: i32, month: u32, day: u32) -> Date {
    Date::from_ymd_opt(year, month, day).unwrap()
}

fn span(start: Date, end: Date) -> DateRange {
    ArbitraryDateRange::of(start, end).unwrap()
}

#[test]
fn contains_date_agrees_with_the_list_of_dates() {
    let ranges = [
        span(ymd(2028, 2, 20), ymd(2028, 3, 5)),
        WeeklyDateRange::with_start_date(ymd(2025, 12, 29)),
        MonthlyDateRange::with_end_date_on_first(ymd(2025, 8, 31)),
        QuarterlyDateRange::with_start_date(ymd(2025, 1, 1)),
        ArbitraryDateRange::date(ymd(2025, 8, 20)),
    ];
    for range in ranges {
        let dates = range.dates();
        assert_eq!(dates.len(), range.len());
        let days = range.len() as i64;
        let mut offset = -2 * days;
        while offset <= 3 * days {
            let date = add_days(range.start_date(), offset);
            assert_eq!(range.contains_date(date), dates.contains(&date));
            assert_eq!(range.contains_date(date), 0 <= offset && offset < days);
            offset += 1;
        }
    }
}

#[test]
fn dates_run_from_the_start_to_the_end() {
    let range = span(ymd(2028, 2, 27), ymd(2028, 3, 2));
    assert_eq!(
        range.dates(),
        vec![
            ymd(2028, 2, 27),
            ymd(2028, 2, 28),
            ymd(2028, 2, 29),
            ymd(2028, 3, 1),
            ymd(2028, 3, 2)
        ]
    );
    let last = ArbitraryDateRange::date(ymd(262142, 12, 31));
    assert_eq!(last.dates(), vec![ymd(262142, 12, 31)]);
}

#[test]
fn date_at_counts_from_the_start() {
    let range = span(ymd(2025, 12, 30), ymd(2026, 1, 2));
    assert_eq!(range.date_at(0), Some(ymd(2025, 12, 30)));
    assert_eq!(range.date_at(1), Some(ymd(2025, 12, 31)));
    assert_eq!(range.date_at(2), Some(ymd(2026, 1, 1)));
    assert_eq!(range.date_at(3), Some(ymd(2026, 1, 2)));
    assert_eq!(range.date_at(4), None);
    assert_eq!(range.date_at(usize::MAX), None);
}

#[test]
fn iter_gives_every_date_once() {
    let range = span(ymd(2025, 12, 30), ymd(2026, 1, 2));
    let mut walk = range.iter();
    let mut seen = Vec::new();
    while let Some(date) = walk.next() {
        seen.push(date);
    }
    assert_eq!(seen, range.dates());
    assert_eq!(walk.next(), None);
    assert_eq!(walk.next(), None);
    let mut last = ArbitraryDateRange::date(ymd(262142, 12, 31)).iter();
    assert_eq!(last.next(), Some(ymd(262142, 12, 31)));
    assert_eq!(last.next(), None);
}

#[test]
fn dates_for_day_picks_the_weekday() {
    let august = MonthlyDateRange::with_end_date_on_first(ymd(2025, 8, 31));
    assert_eq!(
        august.dates_for_day(Weekday::Fri),
        vec![ymd(2025, 8, 1), ymd(2025, 8, 8), ymd(2025, 8, 15), ymd(2025, 8, 22), ymd(2025, 8, 29)]
    );
    assert_eq!(
        august.dates_for_day(Weekday::Wed),
        vec![ymd(2025, 8, 6), ymd(2025, 8, 13), ymd(2025, 8, 20), ymd(2025, 8, 27)]
    );
    let short = span(ymd(2025, 8, 18), ymd(2025, 8, 19));
    assert_eq!(short.dates_for_day(Weekday::Mon), vec![ymd(2025, 8, 18)]);
    assert_eq!(short.dates_for_day(Weekday::Sun), Vec::<Date>::new());
    let week = WeeklyDateRange::with_start_date(ymd(2025, 8, 18));
    let days = [
        Weekday::Mon,
        Weekday::Tue,
        Weekday::Wed,
        Weekday::Thu,
        Weekday::Fri,
        Weekday::Sat,
        Weekday::Sun,
    ];
    for (index, day) in days.iter().enumerate() {
        assert_eq!(week.dates_for_day(*day), vec![add_days(ymd(2025, 8, 18), index as i64)]);
    }
}

#[test]
fn contains_range_needs_both_boundaries_inside() {
    let outer = span(ymd(2025, 8, 1), ymd(2025, 8, 31));
    assert!(outer.contains_range(&outer));
    assert!(outer.contains_range(&span(ymd(2025, 8, 1), ymd(2025, 8, 1))));
    assert!(outer.contains_range(&span(ymd(2025, 8, 10), ymd(2025, 8, 31))));
    assert!(!outer.contains_range(&span(ymd(2025, 7, 31), ymd(2025, 8, 31))));
    assert!(!outer.contains_range(&span(ymd(2025, 8, 10), ymd(2025, 9, 1))));
    assert!(!outer.contains_range(&span(ymd(2025, 9, 1), ymd(2025, 9, 2))));
    assert!(!span(ymd(2025, 8, 10), ymd(2025, 8, 12)).contains_range(&outer));
}

#[test]
fn overlaps_is_symmetric() {
    let ranges = [
        span(ymd(2025, 8, 1), ymd(2025, 8, 10)),
        span(ymd(2025, 8, 10), ymd(2025, 8, 20)),
        span(ymd(2025, 8, 11), ymd(2025, 8, 11)),
        span(ymd(2025, 8, 21), ymd(2025, 9, 30)),
        span(ymd(2025, 7, 1), ymd(2025, 12, 31)),
        span(ymd(2024, 1, 1), ymd(2024, 12, 31)),
        WeeklyDateRange::with_start_date(ymd(2025, 8, 18)),
        MonthlyDateRange::with_end_date_on_first(ymd(2025, 8, 31)),
    ];
    for a in ranges.iter() {
        assert!(a.overlaps(a));
        for b in ranges.iter() {
            assert_eq!(a.overlaps(b), b.overlaps(a));
        }
    }
}

#[test]
fn overlaps_includes_shared_boundaries() {
    let a = span(ymd(2025, 8, 1), ymd(2025, 8, 10));
    assert!(a.overlaps(&span(ymd(2025, 8, 10), ymd(2025, 8, 20))));
    assert!(a.overlaps(&span(ymd(2025, 7, 20), ymd(2025, 8, 1))));
    assert!(a.overlaps(&span(ymd(2025, 8, 3), ymd(2025, 8, 4))));
    assert!(a.overlaps(&span(ymd(2025, 7, 1), ymd(2025, 9, 1))));
    assert!(!a.overlaps(&span(ymd(2025, 8, 11), ymd(2025, 8, 20))));
    assert!(!a.overlaps(&span(ymd(2025, 7, 20), ymd(2025, 7, 31))));
}

#[test]
fn overlaps_any_looks_through_the_list() {
    let a = span(ymd(2025, 8, 1), ymd(2025, 8, 10));
    let far = span(ymd(2025, 9, 1), ymd(2025, 9, 10));
    let near = span(ymd(2025, 8, 10), ymd(2025, 8, 12));
    assert!(!a.overlaps_any(&[]));
    assert!(!a.overlaps_any(&[far]));
    assert!(a.overlaps_any(&[far, near]));
    assert!(a.overlaps_any(&[near, far]));
    assert!(a.overlaps_any(&[far, far, a]));
}
