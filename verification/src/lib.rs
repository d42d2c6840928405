//! Calendar date ranges with cadence-aware navigation.
//!
//! A [`daterange::DateRange`] is an inclusive span of calendar dates tagged
//! with the cadence (weekly, bi-weekly, semi-monthly, monthly, quarterly,
//! semi-annual, annual) that decides where the neighbouring ranges lie.
//! [`dateutils`] holds the calendar arithmetic that the cadences rest on,
//! [`calendar`] its mathematical model. [`timerange`] and [`datetimerange`]
//! hold ranges of times of day and of points in time. All dates are
//! timezone-naive dates of the proleptic Gregorian calendar.

pub mod calendar;
pub mod date;
pub mod daterange;
pub mod datetimerange;
pub mod dateutils;
pub mod time;
pub mod timerange;
