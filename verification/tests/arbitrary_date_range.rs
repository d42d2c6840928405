use dateranges::date::Date;
use dateranges::daterange::ArbitraryDateRange;
use dateranges::dateutils::{add_days, subtract_days};

#[test]
fn test_single_date_range() {
    let date = Date::from_ymd_opt(2025, 8, 20).unwrap();
    let range = ArbitraryDateRange::date(date);

    assert_eq!(range.start_date(), date);
    assert_eq!(range.end_date(), date);
    assert_eq!(range.len(), 1);
    assert!(range.contains_date(date));
    assert_eq!(range.dates(), vec![date]);
}

#[test]
fn test_multi_date_range() {
    let start = Date::from_ymd(2025, 8, 1);
    let end = Date::from_ymd(2025, 8, 15);
    let range = ArbitraryDateRange::of(start, end).unwrap();

    assert_eq!(range.start_date(), start);
    assert_eq!(range.end_date(), end);
    assert_eq!(range.len(), 15);
    assert!(range.contains_date(start));
    assert!(range.contains_date(end));
    assert!(!range.contains_date(Date::from_ymd(2025, 7, 31)));

    let dates = range.dates();
    assert_eq!(dates.first().unwrap(), &start);
    assert_eq!(dates.last().unwrap(), &end);
}

#[test]
fn test_prior_and_next() {
    let start = Date::from_ymd(2025, 8, 1);
    let end = Date::from_ymd(2025, 8, 5);
    let range = ArbitraryDateRange::of(start, end).unwrap();

    let prior = range.prior();
    assert_eq!(prior.start_date(), subtract_days(start, 5));
    assert_eq!(prior.end_date(), subtract_days(end, 5));

    let next = range.next();
    assert_eq!(next.start_date(), add_days(start, 5));
    assert_eq!(next.end_date(), add_days(end, 5));
}

#[test]
fn test_ranges_before_after() {
    let start = Date::from_ymd(2025, 8, 1);
    let end = Date::from_ymd(2025, 8, 3);
    let range = ArbitraryDateRange::of(start, end).unwrap();

    let before = range.ranges_before(2);
    assert_eq!(before.len(), 2);
    assert_eq!(before[1].end_date(), subtract_days(range.start_date(), 1));

    let after = range.ranges_after(2);
    assert_eq!(after.len(), 2);
    assert_eq!(after[0].start_date(), add_days(range.end_date(), 1));
}

#[test]
fn arbitrary_range_rejects_an_end_before_the_start() {
    let start = Date::from_ymd(2025, 8, 2);
    let end = Date::from_ymd(2025, 8, 1);
    assert!(ArbitraryDateRange::of(start, end).is_err());
    assert!(ArbitraryDateRange::of(end, start).is_ok());
    assert!(ArbitraryDateRange::of(start, start).is_ok());
}
