//! Date ranges and the cadences that generate them.

pub mod annual_date_range;
pub mod arbitrary_date_range;
pub mod bi_weekly_date_range;
pub mod date_range;
pub mod dates;
pub mod default_date_range;
pub mod error;
pub mod laws;
pub mod model;
pub mod monthly_date_range;
pub mod ordering;
pub mod quarterly_date_range;
pub mod search;
pub mod semi_annual_date_range;
pub mod semi_monthly_date_range;
pub mod steps;
pub mod walks;
pub mod weekly_date_range;

pub use self::annual_date_range::AnnualDateRange;
pub use self::arbitrary_date_range::ArbitraryDateRange;
pub use self::bi_weekly_date_range::BiWeeklyDateRange;
pub use self::date_range::DateRange;
pub use self::dates::DateRangeIter;
pub use self::default_date_range::DefaultDateRange;
pub use self::error::RangeError;
pub use self::model::Cadence;
pub use self::monthly_date_range::MonthlyDateRange;
pub use self::quarterly_date_range::QuarterlyDateRange;
pub use self::semi_annual_date_range::SemiAnnualDateRange;
pub use self::semi_monthly_date_range::SemiMonthlyDateRange;
pub use self::weekly_date_range::WeeklyDateRange;
