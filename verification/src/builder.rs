use vstd::prelude::*;
use crate::conf::{Days, Hours, Minuters, MonthDays, Seconds, TimerConf, WeekDays};

verus! {

/// Builds the day rule of a recurrence rule, in steps; the hour, minute and
/// second sets follow in that fixed order.
pub struct DayConfBuilder {
    pub(crate) days: Days,
}

impl DayConfBuilder {
    /// The day rule collected so far.
    pub closed spec fn days_spec(self) -> Days {
        self.days
    }

    /// Start from a month-day set.
    pub(crate) fn default_month_days(month_days: MonthDays) -> (r: DayConfBuilder)
        ensures
            r.days_spec() == Days::MonthDays(month_days),
    {
        DayConfBuilder { days: Days::MonthDays(month_days) }
    }

    /// Start from a weekday set.
    pub(crate) fn default_week_days(week_days: WeekDays) -> (r: DayConfBuilder)
        ensures
            r.days_spec() == Days::WeekDays(week_days),
    {
        DayConfBuilder { days: Days::WeekDays(week_days) }
    }

    /// Set the month-day component, keeping any weekday component.
    pub fn conf_month_days(self, month_days: MonthDays) -> (r: Self)
        ensures
            r.days_spec() == self.days_spec().with_month_days(month_days),
    {
        DayConfBuilder { days: self.days.update_month_days(month_days) }
    }

    /// Set the weekday component, keeping any month-day component.
    pub fn conf_week_days(self, week_days: WeekDays) -> (r: Self)
        ensures
            r.days_spec() == self.days_spec().with_week_days(week_days),
    {
        DayConfBuilder { days: self.days.update_week_days(week_days) }
    }

    /// Fix the day rule and configure the hours.
    pub fn build_with_hours(self, hours: Hours) -> (r: DayHourConfBuilder)
        ensures
            r.days_spec() == self.days_spec(),
            r.hours_spec() == hours,
    {
        DayHourConfBuilder { days: self.days, hours }
    }
}

/// A day rule with its hour set; the minute set comes next.
pub struct DayHourConfBuilder {
    days: Days,
    hours: Hours,
}

impl DayHourConfBuilder {
    /// The day rule collected so far.
    pub closed spec fn days_spec(self) -> Days {
        self.days
    }

    /// The hour set collected so far.
    pub closed spec fn hours_spec(self) -> Hours {
        self.hours
    }

    /// Configure the minutes.
    pub fn build_with_minuter(self, minuters: Minuters) -> (r: DayHourMinuterConfBuilder)
        ensures
            r.days_spec() == self.days_spec(),
            r.hours_spec() == self.hours_spec(),
            r.minuters_spec() == minuters,
    {
        DayHourMinuterConfBuilder { days: self.days, hours: self.hours, minuters }
    }
}

/// A day rule with its hour and minute sets; the second set completes it.
pub struct DayHourMinuterConfBuilder {
    days: Days,
    hours: Hours,
    minuters: Minuters,
}

impl DayHourMinuterConfBuilder {
    /// The day rule collected so far.
    pub closed spec fn days_spec(self) -> Days {
        self.days
    }

    /// The hour set collected so far.
    pub closed spec fn hours_spec(self) -> Hours {
        self.hours
    }

    /// The minute set collected so far.
    pub closed spec fn minuters_spec(self) -> Minuters {
        self.minuters
    }

    /// Configure the seconds and finish the rule. Every component must select
    /// at least one value: an empty field set can never be satisfied, so it is
    /// ruled out here, before a rule exists.
    pub fn build_with_second(self, seconds: Seconds) -> (r: TimerConf)
        requires
            self.days_spec().wf(),
            self.hours_spec().wf(),
            self.minuters_spec().wf(),
            seconds.wf(),
        ensures
            r.wf(),
            r.days_spec() == self.days_spec(),
            r.hours_spec() == self.hours_spec(),
            r.minuters_spec() == self.minuters_spec(),
            r.seconds_spec() == seconds,
    {
        TimerConf::from_parts(self.days, self.hours, self.minuters, seconds)
    }
}

} // verus!
