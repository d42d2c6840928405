use std::str::FromStr;

use bigdecimal::BigDecimal;
use dateranges::date::Date;
use dateranges::dateutils::{
    add_days, add_months, add_years, can_add_days, can_add_months,
    duration_in_fractional_hours_bd, duration_in_fractional_seconds_bd, duration_in_hours,
    duration_in_minutes, duration_in_seconds, earliest, earliest_opt, first_day_of_month,
    last_day_of_month, latest, latest_opt, subtract_days, subtract_months, subtract_years,
    with_year_safe,
};
use dateranges::time::{DateTime, Time};

fn ymd(year: i32, month: u32, day: u32) -> Date {
    Date::from_ymd_opt(year, month, day).unwrap()
}

fn at(year: i32, month: u32, day: u32, hour: u32, min: u32, sec: u32) -> DateTime {
    DateTime::new(ymd(year, month, day), Time::from_hms_opt(hour, min, sec).unwrap())
}

#[test]
fn test_first_day_of_month() {
    let date = first_day_of_month(Date::from_ymd_opt(2025, 8, 20).unwrap());

    assert_eq!(date.year(), 2025);
    assert_eq!(date.month(), 8);
    assert_eq!(date.day(), 1);
}

#[test]
fn test_last_day_of_month() {
    assert_eq!(last_day_of_month(ymd(2025, 8, 20)), ymd(2025, 8, 31));
    assert_eq!(last_day_of_month(ymd(2025, 12, 15)), ymd(2025, 12, 31));
    assert_eq!(last_day_of_month(ymd(2025, 2, 15)), ymd(2025, 2, 28));
    assert_eq!(last_day_of_month(ymd(2028, 2, 15)), ymd(2028, 2, 29));
    assert_eq!(last_day_of_month(ymd(2100, 2, 1)), ymd(2100, 2, 28));
    assert_eq!(last_day_of_month(ymd(2000, 2, 1)), ymd(2000, 2, 29));
}

#[test]
fn last_day_of_month_works_in_the_last_month_of_the_calendar() {
    assert_eq!(last_day_of_month(ymd(262142, 12, 1)), ymd(262142, 12, 31));
    assert_eq!(first_day_of_month(ymd(-262143, 1, 31)), ymd(-262143, 1, 1));
}

#[test]
fn test_add_days() {
    assert_eq!(add_days(ymd(2025, 8, 20), 1), ymd(2025, 8, 21));
    assert_eq!(add_days(ymd(2025, 12, 31), 2), ymd(2026, 1, 2));
    assert_eq!(add_days(ymd(2025, 2, 28), 1), ymd(2025, 3, 1));
    assert_eq!(add_days(ymd(2028, 2, 28), 1), ymd(2028, 2, 29));
    assert_eq!(add_days(ymd(2025, 8, 20), 0), ymd(2025, 8, 20));
    assert_eq!(add_days(ymd(2025, 8, 20), -20), ymd(2025, 7, 31));
    assert_eq!(add_days(ymd(2014, 1, 1), 365 * 400 + 97), ymd(2414, 1, 1));
}

#[test]
fn test_subtract_days() {
    assert_eq!(subtract_days(ymd(2025, 8, 20), 1), ymd(2025, 8, 19));
    assert_eq!(subtract_days(ymd(2026, 1, 2), 2), ymd(2025, 12, 31));
    assert_eq!(subtract_days(ymd(2025, 3, 1), 1), ymd(2025, 2, 28));
    assert_eq!(subtract_days(ymd(2028, 2, 29), 1), ymd(2028, 2, 28));
    assert_eq!(subtract_days(ymd(2028, 2, 29), -1), ymd(2028, 3, 1));
}

#[test]
fn test_add_months() {
    assert_eq!(add_months(ymd(2025, 8, 20), 1), ymd(2025, 9, 20));
    assert_eq!(add_months(ymd(2025, 12, 31), 2), ymd(2026, 2, 28));
    assert_eq!(add_months(ymd(2025, 2, 28), 1), ymd(2025, 3, 28));
    assert_eq!(add_months(ymd(2028, 2, 28), 1), ymd(2028, 3, 28));
    assert_eq!(add_months(ymd(2028, 2, 29), 1), ymd(2028, 3, 29));
    assert_eq!(add_months(ymd(2025, 1, 31), 1), ymd(2025, 2, 28));
    assert_eq!(add_months(ymd(2024, 1, 31), 1), ymd(2024, 2, 29));
    assert_eq!(add_months(ymd(2025, 1, 31), 0), ymd(2025, 1, 31));
    assert_eq!(add_months(ymd(2025, 1, 31), 25), ymd(2027, 2, 28));
    assert_eq!(add_months(ymd(2025, 1, 31), -1), ymd(2024, 12, 31));
    assert_eq!(add_months(ymd(2025, 3, 31), -13), ymd(2024, 2, 29));
    assert_eq!(add_months(ymd(1, 1, 15), -1), ymd(0, 12, 15));
    assert_eq!(add_months(ymd(0, 1, 15), -12), ymd(-1, 1, 15));
}

#[test]
fn test_subtract_months() {
    assert_eq!(subtract_months(ymd(2025, 9, 20), 1), ymd(2025, 8, 20));
    assert_eq!(subtract_months(ymd(2026, 2, 28), 2), ymd(2025, 12, 28));
    assert_eq!(subtract_months(ymd(2025, 3, 28), 1), ymd(2025, 2, 28));
    assert_eq!(subtract_months(ymd(2028, 3, 28), 1), ymd(2028, 2, 28));
    assert_eq!(subtract_months(ymd(2028, 3, 29), 1), ymd(2028, 2, 29));
    assert_eq!(subtract_months(ymd(2025, 3, 31), 1), ymd(2025, 2, 28));
}

#[test]
fn test_add_years() {
    assert_eq!(add_years(ymd(2025, 8, 20), 1), ymd(2026, 8, 20));
    assert_eq!(add_years(ymd(2025, 12, 31), 2), ymd(2027, 12, 31));
    assert_eq!(add_years(ymd(2025, 12, 31), 3), ymd(2028, 12, 31));
    assert_eq!(add_years(ymd(2025, 2, 28), 1), ymd(2026, 2, 28));
    assert_eq!(add_years(ymd(2028, 2, 29), 1), ymd(2029, 2, 28));
    assert_eq!(add_years(ymd(2028, 2, 29), 4), ymd(2032, 2, 29));
}

#[test]
fn test_subtract_years() {
    assert_eq!(subtract_years(ymd(2026, 8, 20), 1), ymd(2025, 8, 20));
    assert_eq!(subtract_years(ymd(2027, 12, 31), 2), ymd(2025, 12, 31));
    assert_eq!(subtract_years(ymd(2028, 12, 31), 3), ymd(2025, 12, 31));
    assert_eq!(subtract_years(ymd(2026, 2, 28), 1), ymd(2025, 2, 28));
    assert_eq!(subtract_years(ymd(2029, 2, 28), 1), ymd(2028, 2, 28));
    assert_eq!(subtract_years(ymd(2028, 2, 29), 1), ymd(2027, 2, 28));
}

#[test]
fn with_year_safe_clamps_the_leap_day() {
    assert_eq!(with_year_safe(ymd(2028, 2, 29), 2029), ymd(2029, 2, 28));
    assert_eq!(with_year_safe(ymd(2028, 2, 29), 2032), ymd(2032, 2, 29));
    assert_eq!(with_year_safe(ymd(2025, 8, 20), 1999), ymd(1999, 8, 20));
    assert_eq!(with_year_safe(ymd(2025, 12, 31), -44), ymd(-44, 12, 31));
}

#[test]
fn shifts_are_refused_at_the_edge_of_the_calendar() {
    let last = ymd(262142, 12, 31);
    let first = ymd(-262143, 1, 1);
    assert!(!can_add_days(last, 1));
    assert!(can_add_days(last, 0));
    assert!(can_add_days(last, -1));
    assert!(!can_add_days(first, -1));
    assert!(can_add_days(first, 1));
    assert!(can_add_days(first, 191_491_528));
    assert!(!can_add_days(first, 191_491_529));
    assert!(!can_add_days(first, i64::MAX));
    assert!(!can_add_days(last, i64::MIN));
    assert_eq!(add_days(first, 191_491_528), last);
    assert!(!can_add_months(last, 1));
    assert!(can_add_months(ymd(262142, 11, 30), 1));
    assert!(!can_add_months(first, -1));
    assert!(can_add_months(first, 12 * 524285 + 11));
    assert!(!can_add_months(first, 12 * 524285 + 12));
    assert!(!can_add_months(ymd(2025, 1, 1), i32::MAX));
    assert!(!can_add_months(ymd(2025, 1, 1), i32::MIN));
}

#[test]
fn earliest_and_latest_pick_by_time() {
    let morning = at(2025, 8, 20, 9, 0, 0);
    let evening = at(2025, 8, 20, 18, 30, 0);
    let next_day = at(2025, 8, 21, 0, 0, 0);
    assert_eq!(earliest(morning, evening), morning);
    assert_eq!(earliest(evening, morning), morning);
    assert_eq!(earliest(evening, next_day), evening);
    assert_eq!(latest(morning, evening), evening);
    assert_eq!(latest(evening, morning), evening);
    assert_eq!(latest(next_day, evening), next_day);
    assert_eq!(latest(morning, morning), morning);
}

#[test]
fn earliest_opt_and_latest_opt_pass_on_what_is_given() {
    let morning = at(2025, 8, 20, 9, 0, 0);
    let evening = at(2025, 8, 20, 18, 30, 0);
    assert_eq!(earliest_opt(None, None), None);
    assert_eq!(earliest_opt(Some(evening), None), Some(evening));
    assert_eq!(earliest_opt(None, Some(evening)), Some(evening));
    assert_eq!(earliest_opt(Some(evening), Some(morning)), Some(morning));
    assert_eq!(earliest_opt(Some(morning), Some(evening)), Some(morning));
    assert_eq!(latest_opt(None, None), None);
    assert_eq!(latest_opt(Some(morning), None), Some(morning));
    assert_eq!(latest_opt(None, Some(morning)), Some(morning));
    assert_eq!(latest_opt(Some(evening), Some(morning)), Some(evening));
    assert_eq!(latest_opt(Some(morning), Some(evening)), Some(evening));
}

#[test]
fn durations_round_towards_zero() {
    let start = at(2025, 8, 20, 9, 0, 0);
    let end = at(2025, 8, 20, 11, 59, 59);
    assert_eq!(duration_in_hours(start, end), 2);
    assert_eq!(duration_in_minutes(start, end), 179);
    assert_eq!(duration_in_seconds(start, end), 10_799);
    assert_eq!(duration_in_hours(end, start), -2);
    assert_eq!(duration_in_minutes(end, start), -179);
    assert_eq!(duration_in_seconds(end, start), -10_799);
    assert_eq!(duration_in_hours(start, start), 0);
}

#[test]
fn durations_count_across_days() {
    let start = at(2025, 12, 31, 23, 0, 0);
    let end = at(2026, 1, 2, 1, 30, 0);
    assert_eq!(duration_in_hours(start, end), 26);
    assert_eq!(duration_in_minutes(start, end), 26 * 60 + 30);
    assert_eq!(duration_in_seconds(start, end), (26 * 60 + 30) * 60);
}

#[test]
fn durations_drop_the_parts_of_a_second() {
    let start =
        DateTime::new(ymd(2025, 8, 20), Time::from_hms_milli_opt(9, 0, 0, 600).unwrap());
    let end = DateTime::new(ymd(2025, 8, 20), Time::from_hms_milli_opt(9, 0, 2, 500).unwrap());
    assert_eq!(duration_in_seconds(start, end), 1);
    assert_eq!(duration_in_seconds(end, start), -1);
}

#[test]
fn duration_in_seconds_is_cut_to_32_bits() {
    // 100 years hold more seconds than 32 bits can count.
    let start = at(2000, 1, 1, 0, 0, 0);
    let end = at(2100, 1, 1, 0, 0, 0);
    let seconds: i64 = 36_525 * 86_400;
    assert_eq!(duration_in_seconds(start, end), seconds as i32);
    assert_eq!(duration_in_hours(start, end), (seconds as i32) / 3600);
    assert_eq!(duration_in_minutes(start, end), (seconds as i32) / 60);
}

#[test]
fn fractional_durations_are_exact_decimals() {
    let start =
        DateTime::new(ymd(2025, 8, 20), Time::from_hms_milli_opt(9, 0, 0, 250).unwrap());
    let end = DateTime::new(ymd(2025, 8, 20), Time::from_hms_milli_opt(10, 30, 1, 750).unwrap());
    assert_eq!(
        duration_in_fractional_seconds_bd(start, end),
        BigDecimal::from_str("5401.5").unwrap()
    );
    assert_eq!(
        duration_in_fractional_seconds_bd(end, start),
        BigDecimal::from_str("-5401.5").unwrap()
    );
    assert_eq!(duration_in_fractional_seconds_bd(start, start), BigDecimal::from(0));
    let even_end = at(2025, 8, 20, 10, 30, 0);
    let even_start = at(2025, 8, 20, 9, 0, 0);
    assert_eq!(
        duration_in_fractional_hours_bd(even_start, even_end),
        BigDecimal::from_str("1.5").unwrap()
    );
    assert_eq!(
        duration_in_fractional_hours_bd(even_end, even_start),
        BigDecimal::from_str("-1.5").unwrap()
    );
    let third = duration_in_fractional_hours_bd(even_start, at(2025, 8, 20, 9, 20, 0));
    assert!(third > BigDecimal::from_str("0.333333").unwrap());
    assert!(third < BigDecimal::from_str("0.333334").unwrap());
}
