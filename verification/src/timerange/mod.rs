//! Ranges of times of day.

pub mod time_range;

pub use self::time_range::TimeRange;
