//! Ranges between two points in time.

pub mod date_time_range;
pub mod date_time_range_with_period_length;

pub use self::date_time_range::DateTimeRange;
pub use self::date_time_range_with_period_length::{
    DateTimeRangeIterator, DateTimeRangeWithPeriodLength,
};
