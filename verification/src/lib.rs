//! A recurrence-rule engine for cron-like schedules: a rule selects days of
//! the month and/or days of the week, together with hours, minutes and
//! seconds, and the engine computes the earliest instant strictly after a
//! given one that the rule selects, or every selected instant of a bounded
//! range.

use vstd::prelude::*;

pub mod builder;
pub mod compute;
pub mod conf;
pub mod data;
pub mod traits;

pub use builder::{DayConfBuilder, DayHourConfBuilder, DayHourMinuterConfBuilder};
pub use conf::{ConfError, Days, Hours, Minuters, MonthDays, Seconds, TimerConf, WeekDays};
pub use data::{DateTime, Hour, Minuter, MonthDay, Second, WeekDay};
pub use traits::{AsData, ConfigOperator, FromData, TryFromData};

verus! {

/// Start a rule from a weekday set.
pub fn configure_weekday(week_day: WeekDays) -> (r: DayConfBuilder)
    ensures
        r.days_spec() == Days::WeekDays(week_day),
{
    DayConfBuilder::default_week_days(week_day)
}

/// Start a rule from a month-day set.
pub fn configure_monthday(month_day: MonthDays) -> (r: DayConfBuilder)
    ensures
        r.days_spec() == Days::MonthDays(month_day),
{
    DayConfBuilder::default_month_days(month_day)
}

} // verus!
