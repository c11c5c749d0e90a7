use vstd::prelude::*;
use crate::compute::{first_weekday_of, rule_sel, key_valid, succ_datetime, Composition};
use crate::data::{
    dt_seconds_spec, key_le, key_lt, lemma_dt_seconds_strict_monotone, month_length_spec,
    seconds_between, DateTime, Hour, Minuter, MonthDay, Second, WeekDay, YEAR_MAX,
};
use crate::traits::{
    bit_sel, mask_some_between, mask_within, AsData, ConfigOperator, FromData, TryFromData,
};

verus! {

/// A configuration mistake, reported when a rule is assembled: a range whose
/// start does not lie before its end, or a field value outside the field's
/// numeric range.
#[derive(Debug, Clone, Copy, PartialEq, Eq, Structural)]
pub enum ConfError {
    InvalidRange,
    OutOfRange,
}

/// The weekday (1 = Monday, ..., 7 = Sunday) of day-of-month `d`, in a month
/// whose first day falls on weekday `fw`.
pub open spec fn wd_of(fw: int, d: int) -> int {
    ((fw - 1 + (d - 1)) % 7) + 1
}

/// The weekday of any day of any month is itself a weekday value.
pub proof fn lemma_wd_of_bounds(fw: int, d: int)
    ensures
        1 <= wd_of(fw, d) <= 7,
{
    assert(0 <= (fw - 1 + (d - 1)) % 7 < 7);
}

/// The days of a month the rule selects.
#[derive(Copy, Clone, Debug, PartialEq, Eq, Structural)]
pub struct MonthDays(u64);

impl MonthDays {
    /// The set stays in the field's range and selects at least one value.
    pub open spec fn wf(self) -> bool {
        mask_within(self.mask(), 1, 31) && mask_some_between(self.mask(), 1, 31)
    }
}

impl ConfigOperator for MonthDays {
    type DataTy = MonthDay;

    open spec fn min_spec() -> u64 {
        1
    }

    open spec fn max_spec() -> u64 {
        31
    }

    closed spec fn mask(&self) -> u64 {
        self.0
    }

    proof fn range_facts() {
        assert(Self::min_spec() == 1);
        assert(Self::max_spec() == 31);
        assert(forall|v: u64| #[trigger] <MonthDay as FromData>::valid_data(v) <==> 1 <= v <= 31);
    }

    fn min_value() -> u64 {
        1
    }

    fn max_value() -> u64 {
        31
    }

    fn _default() -> Self {
        MonthDays(0)
    }

    fn _val(&self) -> u64 {
        self.0
    }

    fn _val_mut(&mut self, val: u64) {
        self.0 = val;
    }
}

/// The days of a week the rule selects.
#[derive(Copy, Clone, Debug, PartialEq, Eq, Structural)]
pub struct WeekDays(u64);

impl WeekDays {
    /// The set stays in the field's range and selects at least one value.
    pub open spec fn wf(self) -> bool {
        mask_within(self.mask(), 1, 7) && mask_some_between(self.mask(), 1, 7)
    }
}

impl ConfigOperator for WeekDays {
    type DataTy = WeekDay;

    open spec fn min_spec() -> u64 {
        1
    }

    open spec fn max_spec() -> u64 {
        7
    }

    closed spec fn mask(&self) -> u64 {
        self.0
    }

    proof fn range_facts() {
        assert(Self::min_spec() == 1);
        assert(Self::max_spec() == 7);
        assert(forall|v: u64| #[trigger] <WeekDay as FromData>::valid_data(v) <==> 1 <= v <= 7);
    }

    fn min_value() -> u64 {
        1
    }

    fn max_value() -> u64 {
        7
    }

    fn _default() -> Self {
        WeekDays(0)
    }

    fn _val(&self) -> u64 {
        self.0
    }

    fn _val_mut(&mut self, val: u64) {
        self.0 = val;
    }
}

/// The hours of a day the rule selects.
#[derive(Copy, Clone, Debug, PartialEq, Eq, Structural)]
pub struct Hours(u64);

impl Hours {
    /// The set stays in the field's range and selects at least one value.
    pub open spec fn wf(self) -> bool {
        mask_within(self.mask(), 0, 23) && mask_some_between(self.mask(), 0, 23)
    }
}

impl ConfigOperator for Hours {
    type DataTy = Hour;

    open spec fn min_spec() -> u64 {
        0
    }

    open spec fn max_spec() -> u64 {
        23
    }

    closed spec fn mask(&self) -> u64 {
        self.0
    }

    proof fn range_facts() {
        assert(Self::min_spec() == 0);
        assert(Self::max_spec() == 23);
        assert(forall|v: u64| #[trigger] <Hour as FromData>::valid_data(v) <==> 0 <= v <= 23);
    }

    fn min_value() -> u64 {
        0
    }

    fn max_value() -> u64 {
        23
    }

    fn _default() -> Self {
        Hours(0)
    }

    fn _val(&self) -> u64 {
        self.0
    }

    fn _val_mut(&mut self, val: u64) {
        self.0 = val;
    }
}

/// The minutes of an hour the rule selects.
#[derive(Copy, Clone, Debug, PartialEq, Eq, Structural)]
pub struct Minuters(u64);

impl Minuters {
    /// The set stays in the field's range and selects at least one value.
    pub open spec fn wf(self) -> bool {
        mask_within(self.mask(), 0, 59) && mask_some_between(self.mask(), 0, 59)
    }
}

impl ConfigOperator for Minuters {
    type DataTy = Minuter;

    open spec fn min_spec() -> u64 {
        0
    }

    open spec fn max_spec() -> u64 {
        59
    }

    closed spec fn mask(&self) -> u64 {
        self.0
    }

    proof fn range_facts() {
        assert(Self::min_spec() == 0);
        assert(Self::max_spec() == 59);
        assert(forall|v: u64| #[trigger] <Minuter as FromData>::valid_data(v) <==> 0 <= v <= 59);
    }

    fn min_value() -> u64 {
        0
    }

    fn max_value() -> u64 {
        59
    }

    fn _default() -> Self {
        Minuters(0)
    }

    fn _val(&self) -> u64 {
        self.0
    }

    fn _val_mut(&mut self, val: u64) {
        self.0 = val;
    }
}

/// The seconds of a minute the rule selects.
#[derive(Copy, Clone, Debug, PartialEq, Eq, Structural)]
pub struct Seconds(u64);

impl Seconds {
    /// The set stays in the field's range and selects at least one value.
    pub open spec fn wf(self) -> bool {
        mask_within(self.mask(), 0, 59) && mask_some_between(self.mask(), 0, 59)
    }
}

impl ConfigOperator for Seconds {
    type DataTy = Second;

    open spec fn min_spec() -> u64 {
        0
    }

    open spec fn max_spec() -> u64 {
        59
    }

    closed spec fn mask(&self) -> u64 {
        self.0
    }

    proof fn range_facts() {
        assert(Self::min_spec() == 0);
        assert(Self::max_spec() == 59);
        assert(forall|v: u64| #[trigger] <Second as FromData>::valid_data(v) <==> 0 <= v <= 59);
    }

    fn min_value() -> u64 {
        0
    }

    fn max_value() -> u64 {
        59
    }

    fn _default() -> Self {
        Seconds(0)
    }

    fn _val(&self) -> u64 {
        self.0
    }

    fn _val_mut(&mut self, val: u64) {
        self.0 = val;
    }
}

impl WeekDays {
    /// The days of a month whose first day falls on weekday `start` that land
    /// on one of the selected weekdays.
    pub fn to_month_days(&self, start: WeekDay) -> (r: MonthDays)
        ensures
            forall|d: u64| #[trigger] bit_sel(r.mask(), d) <==> (1 <= d <= 31 && bit_sel(
                self.mask(),
                wd_of(start.data_spec() as int, d as int) as u64,
            )),
    {
        proof {
            start.lemma_data_valid();
            crate::traits::lemma_bit_zero();
        }
        let fw = start.as_data();
        let mut val: u64 = 0;
        let mut d: u64 = 1;
        while d <= 31
            invariant
                1 <= d <= 32,
                1 <= fw <= 7,
                fw == start.data_spec(),
                forall|j: u64| #[trigger] bit_sel(val, j) <==> (1 <= j < d && bit_sel(
                    self.mask(),
                    wd_of(fw as int, j as int) as u64,
                )),
            decreases 32 - d,
        {
            let w = ((fw - 1) + (d - 1)) % 7 + 1;
            proof {
                lemma_wd_of_bounds(fw as int, d as int);
                assert(w == wd_of(fw as int, d as int));
            }
            if self.contain(WeekDay::from_data(w)) {
                proof {
                    crate::traits::lemma_bit_set(val, d);
                }
                val = val | (1u64 << d);
            }
            d = d + 1;
        }
        let mut r = MonthDays::_default();
        r._val_mut(val);
        r
    }
}

impl Minuters {
    /// The minutes that are whole multiples of `interval`; an interval of zero
    /// selects nothing.
    pub fn every(interval: u64) -> (r: Self)
        ensures
            interval == 0 ==> r.mask() == 0,
            interval > 0 ==> forall|i: u64| #[trigger] bit_sel(r.mask(), i) <==> (i <= 59 && i
                % interval == 0),
    {
        let mut minuters = Self::_default();
        if interval == 0 {
            return minuters;
        }
        proof {
            crate::traits::lemma_bit_zero();
        }
        let mut val: u64 = 0;
        loop
            invariant
                0 < interval,
                val <= 59,
                val % interval == 0,
                forall|i: u64| #[trigger] bit_sel(minuters.mask(), i) <==> (i < val && i % interval
                    == 0),
            decreases 60 - val,
        {
            minuters = minuters.add(Minuter::from_data(val));
            proof {
                assert forall|i: u64| val < i < val + interval implies #[trigger] (i % interval)
                    != 0 by {
                    if i % interval == 0 {
                        lemma_strides_apart(val, i, interval);
                    }
                }
            }
            if interval > 59 {
                proof {
                    assert forall|i: u64| i <= 59 implies #[trigger] (i % interval) == i by {
                        assert(i % interval == i) by (nonlinear_arith)
                            requires
                                i < interval,
                        ;
                    }
                }
                return minuters;
            }
            if val + interval > 59 {
                return minuters;
            }
            proof {
                assert((val + interval) % (interval as int) == 0) by (nonlinear_arith)
                    requires
                        interval > 0,
                        val % interval == 0,
                ;
            }
            val = val + interval;
        }
    }
}

/// Two distinct multiples of a positive stride lie at least the stride apart.
proof fn lemma_strides_apart(val: u64, i: u64, interval: u64)
    requires
        interval > 0,
        val % interval == 0,
        i > val,
        i % interval == 0,
    ensures
        i >= val + interval,
{
    assert(i >= val + interval) by (nonlinear_arith)
        requires
            interval > 0,
            val % interval == 0,
            i % interval == 0,
            i > val,
    ;
}

/// The day rule: selected month-days, selected weekdays, or the union of both.
/// Exactly the present components select days; the "neither" state cannot be
/// written.
#[derive(Copy, Clone, Debug)]
pub enum Days {
    MonthDays(MonthDays),
    WeekDays(WeekDays),
    MonthAndWeekDays(MonthDays, WeekDays),
}

impl Days {
    /// Each present component selects at least one value and stays within its
    /// field's range.
    pub open spec fn wf(self) -> bool {
        match self {
            Days::MonthDays(md) => mask_within(md.mask(), 1, 31) && mask_some_between(
                md.mask(),
                1,
                31,
            ),
            Days::WeekDays(wd) => mask_within(wd.mask(), 1, 7) && mask_some_between(
                wd.mask(),
                1,
                7,
            ),
            Days::MonthAndWeekDays(md, wd) => mask_within(md.mask(), 1, 31) && mask_some_between(
                md.mask(),
                1,
                31,
            ) && mask_within(wd.mask(), 1, 7) && mask_some_between(wd.mask(), 1, 7),
        }
    }

    /// Whether day-of-month `d` is selected, in a month whose first day falls
    /// on weekday `fw`: it is selected by the month-day component or lands on
    /// a selected weekday.
    pub open spec fn day_sel(self, fw: int, d: int) -> bool {
        1 <= d <= 31 && match self {
            Days::MonthDays(md) => bit_sel(md.mask(), d as u64),
            Days::WeekDays(wd) => bit_sel(wd.mask(), wd_of(fw, d) as u64),
            Days::MonthAndWeekDays(md, wd) => bit_sel(md.mask(), d as u64) || bit_sel(
                wd.mask(),
                wd_of(fw, d) as u64,
            ),
        }
    }

    /// Whether each present component selects at least one value of its range:
    /// the test of `wf` that callers outside the proofs can run.
    pub fn well_formed(&self) -> (r: bool)
        ensures
            r == self.wf(),
    {
        match self {
            Days::MonthDays(md) => crate::traits::mask_wf(md._val(), 1, 31),
            Days::WeekDays(wd) => crate::traits::mask_wf(wd._val(), 1, 7),
            Days::MonthAndWeekDays(md, wd) => {
                let a = crate::traits::mask_wf(md._val(), 1, 31);
                let b = crate::traits::mask_wf(wd._val(), 1, 7);
                a && b
            },
        }
    }

    /// The concrete day set of a month whose first day falls on weekday
    /// `week_day`: the month-day component unioned with the weekday component
    /// expanded to day-of-month positions.
    pub(crate) fn month_days(&self, week_day: WeekDay) -> (r: MonthDays)
        requires
            self.wf(),
        ensures
            forall|d: u64| #[trigger] bit_sel(r.mask(), d) <==> self.day_sel(
                week_day.data_spec() as int,
                d as int,
            ),
    {
        match self {
            Days::MonthDays(month_days) => *month_days,
            Days::WeekDays(week_days) => week_days.to_month_days(week_day),
            Days::MonthAndWeekDays(month_days, week_days) => month_days.merge(
                &week_days.to_month_days(week_day),
            ),
        }
    }

    /// The day rule with its month-day component replaced.
    pub open spec fn with_month_days(self, month_days: MonthDays) -> Days {
        match self {
            Days::MonthDays(_) => Days::MonthDays(month_days),
            Days::WeekDays(week_days) => Days::MonthAndWeekDays(month_days, week_days),
            Days::MonthAndWeekDays(_, week_days) => Days::MonthAndWeekDays(month_days, week_days),
        }
    }

    /// The day rule with its weekday component replaced.
    pub open spec fn with_week_days(self, week_days: WeekDays) -> Days {
        match self {
            Days::MonthDays(month_days) => Days::MonthAndWeekDays(month_days, week_days),
            Days::WeekDays(_) => Days::WeekDays(week_days),
            Days::MonthAndWeekDays(month_days, _) => Days::MonthAndWeekDays(month_days, week_days),
        }
    }

    /// Replace the month-day component, keeping any weekday component.
    pub(crate) fn update_month_days(self, month_days: MonthDays) -> (r: Self)
        ensures
            r == self.with_month_days(month_days),
    {
        match self {
            Days::MonthDays(_) => Days::MonthDays(month_days),
            Days::WeekDays(week_days) => Days::MonthAndWeekDays(month_days, week_days),
            Days::MonthAndWeekDays(_, week_days) => Days::MonthAndWeekDays(month_days, week_days),
        }
    }

    /// Replace the weekday component, keeping any month-day component.
    pub(crate) fn update_week_days(self, week_days: WeekDays) -> (r: Self)
        ensures
            r == self.with_week_days(week_days),
    {
        match self {
            Days::MonthDays(month_days) => Days::MonthAndWeekDays(month_days, week_days),
            Days::WeekDays(_) => Days::WeekDays(week_days),
            Days::MonthAndWeekDays(month_days, _) => Days::MonthAndWeekDays(month_days, week_days),
        }
    }
}

/// A complete recurrence rule: the day rule plus the hour, minute and second
/// sets. Immutable once built; every query builds its own cursor state.
#[derive(Debug, Clone, Copy)]
pub struct TimerConf {
    pub(crate) days: Days,
    pub(crate) hours: Hours,
    pub(crate) minuters: Minuters,
    pub(crate) seconds: Seconds,
}

/// Whether key `k` lies within the queried range's end: at or before `e` for
/// a closed range, strictly before it otherwise.
pub open spec fn within_end(
    k: (int, int, int, int, int, int),
    e: (int, int, int, int, int, int),
    include_end: bool,
) -> bool {
    if include_end {
        key_le(k, e)
    } else {
        key_lt(k, e)
    }
}

impl TimerConf {
    /// The day rule.
    pub closed spec fn days_spec(self) -> Days {
        self.days
    }

    /// The hour set.
    pub closed spec fn hours_spec(self) -> Hours {
        self.hours
    }

    /// The minute set.
    pub closed spec fn minuters_spec(self) -> Minuters {
        self.minuters
    }

    /// The second set.
    pub closed spec fn seconds_spec(self) -> Seconds {
        self.seconds
    }

    /// Every field set selects at least one value of its range.
    pub open spec fn wf(self) -> bool {
        &&& self.days_spec().wf()
        &&& self.hours_spec().wf()
        &&& self.minuters_spec().wf()
        &&& self.seconds_spec().wf()
    }

    /// Which keys the rule selects.
    pub open spec fn sel_key(self, k: (int, int, int, int, int, int)) -> bool {
        rule_sel(
            self.days_spec(),
            self.hours_spec().mask(),
            self.minuters_spec().mask(),
            self.seconds_spec().mask(),
            k,
        )
    }

    /// Whether the rule selects the instant `dt`: its day is selected by the
    /// day rule, and its hour, minute and second by their sets.
    pub open spec fn matches(self, dt: DateTime) -> bool {
        self.sel_key(dt.key())
    }

    /// Whether `r` is the earliest well-formed instant strictly after `t`
    /// that the rule selects.
    pub open spec fn is_next_of(self, t: DateTime, r: DateTime) -> bool {
        &&& r.wf()
        &&& key_lt(t.key(), r.key())
        &&& self.matches(r)
        &&& forall|k: (int, int, int, int, int, int)|
            key_valid(k) && key_lt(t.key(), k) && key_lt(k, r.key()) ==> !(#[trigger] self.sel_key(
                k,
            ))
    }

    /// Assemble a rule from its four parts.
    pub(crate) fn from_parts(
        days: Days,
        hours: Hours,
        minuters: Minuters,
        seconds: Seconds,
    ) -> (r: TimerConf)
        ensures
            r.days_spec() == days,
            r.hours_spec() == hours,
            r.minuters_spec() == minuters,
            r.seconds_spec() == seconds,
    {
        TimerConf { days, hours, minuters, seconds }
    }

    /// Whether every field set selects at least one value of its range: the
    /// test of `wf` that callers outside the proofs can run.
    pub fn well_formed(&self) -> (r: bool)
        ensures
            r == self.wf(),
    {
        let d = self.days.well_formed();
        let h = crate::traits::mask_wf(self.hours._val(), 0, 23);
        let mi = crate::traits::mask_wf(self.minuters._val(), 0, 59);
        let s = crate::traits::mask_wf(self.seconds._val(), 0, 59);
        d && h && mi && s
    }

    /// Whether the rule selects the instant `dt`.
    pub fn matches_datetime(&self, dt: &DateTime) -> (r: bool)
        requires
            self.wf(),
            dt.wf(),
        ensures
            r == self.matches(*dt),
    {
        proof {
            dt.month_day.lemma_data_valid();
            dt.hour.lemma_data_valid();
            dt.minuter.lemma_data_valid();
            dt.second.lemma_data_valid();
        }
        let fwn = crate::compute::first_weekday(dt.year, dt.month);
        let month_days = self.days.month_days(WeekDay::from_data(fwn as u64));
        month_days.contain(dt.month_day) && self.hours.contain(dt.hour) && self.minuters.contain(
            dt.minuter,
        ) && self.seconds.contain(dt.second)
    }

    /// The earliest instant strictly after `now` that the rule selects: all
    /// four fields of the result are selected, and no well-formed instant
    /// between `now` and the result is.
    pub fn next_with_time(&self, now: DateTime) -> (r: DateTime)
        requires
            self.wf(),
            now.wf(),
            now.year + 2 <= YEAR_MAX,
        ensures
            self.is_next_of(now, r),
            r.year <= now.year + 2,
            r.week_day.data_spec() as int == wd_of(
                first_weekday_of(r.year as int, r.month as int),
                r.month_day.data_spec() as int,
            ),
    {
        let start = succ_datetime(&now);
        let mut composition = Composition::from(
            start,
            self.days,
            self.hours,
            self.minuters,
            self.seconds,
        );
        let ghost c0 = composition;
        let next = composition.next();
        proof {
            assert(key_le(start.key(), next.key()));
            assert(key_lt(now.key(), next.key()));
            assert(next.year <= now.year + 2) by {
                assert(next.key().0 <= YEAR_MAX);
                if next.key().0 > start.key().0 {
                    // the matcher rolls across at most one year boundary
                    assert(key_le(c0.pos(), next.key()));
                }
            }
            assert forall|k: (int, int, int, int, int, int)|
                key_valid(k) && key_lt(now.key(), k) && key_lt(k, next.key()) implies !(
            #[trigger] self.sel_key(k)) by {
                if key_le(start.key(), k) {
                    assert(!c0.sel(k));
                } else {
                    assert(key_lt(now.key(), k));
                    assert(key_le(start.key(), k));
                }
            }
        }
        next
    }
}

impl TimerConf {
    /// The number of seconds from `now` to the next instant the rule selects:
    /// the distance to the earliest selected instant strictly after `now`.
    /// Always positive: a scheduler sleeping this long never spins in place.
    pub fn next(&self, now: DateTime) -> (r: u64)
        requires
            self.wf(),
            now.wf(),
            now.year + 2 <= YEAR_MAX,
        ensures
            r > 0,
            exists|nd: DateTime| #[trigger] self.is_next_of(now, nd) && r as int == dt_seconds_spec(
                nd,
            ) - dt_seconds_spec(now),
    {
        let next_dt = self.next_with_time(now);
        proof {
            lemma_dt_seconds_strict_monotone(now, next_dt);
        }
        let r = seconds_between(&now, &next_dt);
        proof {
            assert(self.is_next_of(now, next_dt) && r as int == dt_seconds_spec(next_dt)
                - dt_seconds_spec(now));
        }
        r
    }

    /// Every instant within the given range that the rule selects, in
    /// increasing order: nothing else is selected there, and nothing listed
    /// falls outside the range. The start is part of the range; the end is
    /// part of it when `include_end` holds. A range whose start does not lie
    /// before its end (or at it, for a closed range) is a configuration error.
    pub fn datetimes(&self, start: DateTime, end: DateTime, include_end: bool) -> (r: Result<
        Vec<DateTime>,
        ConfError,
    >)
        requires
            self.wf(),
            start.wf(),
            end.wf(),
            end.year + 2 <= YEAR_MAX,
            start.year + 2 <= YEAR_MAX,
        ensures
            r is Ok <==> (if include_end {
                key_le(start.key(), end.key())
            } else {
                key_lt(start.key(), end.key())
            }),
            r matches Ok(v) ==> {
                &&& forall|i: int|
                    0 <= i < v@.len() ==> (#[trigger] v@[i]).wf() && self.matches(v@[i]) && key_le(
                        start.key(),
                        v@[i].key(),
                    ) && within_end(v@[i].key(), end.key(), include_end)
                &&& forall|i: int, j: int|
                    0 <= i < j < v@.len() ==> key_lt(v@[i].key(), v@[j].key())
                &&& forall|k: (int, int, int, int, int, int)|
                    key_valid(k) && key_le(start.key(), k) && within_end(k, end.key(), include_end)
                        && #[trigger] self.sel_key(k) ==> exists|i: int|
                        0 <= i < v@.len() && v@[i].key() == k
            },
    {
        if include_end {
            if !start.le(&end) {
                return Err(ConfError::InvalidRange);
            }
        } else {
            if end.le(&start) {
                return Err(ConfError::InvalidRange);
            }
        }
        let mut date_times: Vec<DateTime> = Vec::new();
        if self.matches_datetime(&start) {
            date_times.push(start);
        }
        let mut cur: DateTime = start;
        proof {
            assert forall|k: (int, int, int, int, int, int)|
                key_valid(k) && key_le(start.key(), k) && key_le(k, cur.key())
                    && #[trigger] self.sel_key(k) implies exists|i: int|
                0 <= i < date_times@.len() && date_times@[i].key() == k by {
                assert(k.0 == start.key().0 && k.1 == start.key().1 && k.2 == start.key().2 && k.3
                    == start.key().3 && k.4 == start.key().4 && k.5 == start.key().5);
                assert(k == start.key());
                assert(date_times@[0].key() == k);
            }
        }
        loop
            invariant
                self.wf(),
                start.wf(),
                end.wf(),
                cur.wf(),
                end.year + 2 <= YEAR_MAX,
                key_le(start.key(), cur.key()),
                within_end(cur.key(), end.key(), include_end),
                forall|i: int|
                    0 <= i < date_times@.len() ==> (#[trigger] date_times@[i]).wf() && self.matches(
                        date_times@[i],
                    ) && key_le(start.key(), date_times@[i].key()) && key_le(
                        date_times@[i].key(),
                        cur.key(),
                    ),
                forall|i: int, j: int|
                    0 <= i < j < date_times@.len() ==> key_lt(
                        date_times@[i].key(),
                        date_times@[j].key(),
                    ),
                forall|k: (int, int, int, int, int, int)|
                    key_valid(k) && key_le(start.key(), k) && key_le(k, cur.key())
                        && #[trigger] self.sel_key(k) ==> exists|i: int|
                        0 <= i < date_times@.len() && date_times@[i].key() == k,
            decreases
                    YEAR_MAX - cur.year as int,
                    12 - cur.month as int,
                    31 - cur.month_day.data_spec() as int,
                    23 - cur.hour.data_spec() as int,
                    59 - cur.minuter.data_spec() as int,
                    59 - cur.second.data_spec() as int,
        {
            proof {
                assert(cur.year <= end.year) by {
                    assert(key_le(cur.key(), end.key()) || key_lt(cur.key(), end.key()));
                }
                cur.month_day.lemma_data_valid();
                cur.hour.lemma_data_valid();
                cur.minuter.lemma_data_valid();
                cur.second.lemma_data_valid();
            }
            let next = self.next_with_time(cur);
            let still_in = if include_end {
                next.le(&end)
            } else {
                !end.le(&next)
            };
            if !still_in {
                proof {
                    assert forall|k: (int, int, int, int, int, int)|
                        key_valid(k) && key_le(start.key(), k) && within_end(
                            k,
                            end.key(),
                            include_end,
                        ) && #[trigger] self.sel_key(k) implies exists|i: int|
                        0 <= i < date_times@.len() && date_times@[i].key() == k by {
                        if !key_le(k, cur.key()) {
                            // a selected key past `cur` but within the range
                            // would contradict the minimality of `next`
                            assert(key_lt(cur.key(), k));
                            assert(key_lt(k, next.key()));
                            assert(false);
                        }
                    }
                }
                return Ok(date_times);
            }
            let ghost prev = date_times@;
            date_times.push(next);
            proof {
                assert forall|k: (int, int, int, int, int, int)|
                    key_valid(k) && key_le(start.key(), k) && key_le(k, next.key())
                        && #[trigger] self.sel_key(k) implies exists|i: int|
                    0 <= i < date_times@.len() && date_times@[i].key() == k by {
                    if k == next.key() {
                        assert(date_times@[prev.len() as int].key() == k);
                    } else if key_le(k, cur.key()) {
                        let i = choose|i: int| 0 <= i < prev.len() && prev[i].key() == k;
                        assert(date_times@[i].key() == k);
                    } else {
                        assert(key_lt(cur.key(), k) && key_lt(k, next.key()));
                        assert(false);
                    }
                }
            }
            cur = next;
        }
    }
}

/// Stepping strictly advances: from any instant the next selected instant
/// lies strictly after it, and the instant found from that result lies
/// strictly after again — repeated stepping never stalls or goes back.
pub proof fn lemma_next_strictly_advances(
    conf: TimerConf,
    t: DateTime,
    r1: DateTime,
    r2: DateTime,
)
    requires
        conf.is_next_of(t, r1),
        conf.is_next_of(r1, r2),
    ensures
        key_lt(t.key(), r1.key()),
        key_lt(r1.key(), r2.key()),
        key_lt(t.key(), r2.key()),
{
}

/// The "next instant" is determined: two well-formed instants that both
/// satisfy the next-after characterization for one rule and start instant
/// carry the same six fields. With the chain law, n single steps from a run's
/// entry land exactly on the n-th entry after it.
pub proof fn lemma_next_unique(conf: TimerConf, t: DateTime, r1: DateTime, r2: DateTime)
    requires
        conf.is_next_of(t, r1),
        conf.is_next_of(t, r2),
    ensures
        r1.key() == r2.key(),
{
    r1.month_day.lemma_data_valid();
    r1.hour.lemma_data_valid();
    r1.minuter.lemma_data_valid();
    r1.second.lemma_data_valid();
    r2.month_day.lemma_data_valid();
    r2.hour.lemma_data_valid();
    r2.minuter.lemma_data_valid();
    r2.second.lemma_data_valid();
    assert(key_valid(r1.key()) && key_valid(r2.key()));
    if key_lt(r1.key(), r2.key()) {
        assert(!conf.sel_key(r1.key()));
        assert(false);
    }
    if key_lt(r2.key(), r1.key()) {
        assert(!conf.sel_key(r2.key()));
        assert(false);
    }
}

/// The chain law for range enumeration: in a run of instants that are all
/// selected and lie within the range, come in strictly increasing order, and
/// miss no selected instant of the range — exactly what `datetimes` returns —
/// each entry is the "next after" its predecessor. Hence n single steps from
/// an entry land on the n-th entry after it.
pub proof fn lemma_enumeration_chain(
    conf: TimerConf,
    start: DateTime,
    end: DateTime,
    include_end: bool,
    v: Seq<DateTime>,
    i: int,
)
    requires
        forall|j: int|
            0 <= j < v.len() ==> (#[trigger] v[j]).wf() && conf.matches(v[j]) && key_le(
                start.key(),
                v[j].key(),
            ) && within_end(v[j].key(), end.key(), include_end),
        forall|j1: int, j2: int| 0 <= j1 < j2 < v.len() ==> key_lt(v[j1].key(), v[j2].key()),
        forall|k: (int, int, int, int, int, int)|
            key_valid(k) && key_le(start.key(), k) && within_end(k, end.key(), include_end)
                && #[trigger] conf.sel_key(k) ==> exists|j: int|
                0 <= j < v.len() && v[j].key() == k,
        0 <= i < v.len() - 1,
    ensures
        conf.is_next_of(v[i], v[i + 1]),
{
    assert(v[i].wf() && v[i + 1].wf() && conf.matches(v[i + 1]));
    assert(key_lt(v[i].key(), v[i + 1].key()));
    assert forall|k: (int, int, int, int, int, int)|
        key_valid(k) && key_lt(v[i].key(), k) && key_lt(k, v[i + 1].key()) implies !(
    #[trigger] conf.sel_key(k)) by {
        if conf.sel_key(k) {
            // such an instant would lie in the range, so the run would hold
            // it, between two adjacent entries: impossible
            assert(key_le(start.key(), k));
            assert(within_end(k, end.key(), include_end));
            let j = choose|j: int| 0 <= j < v.len() && v[j].key() == k;
            if j <= i {
                assert(j < i ==> key_lt(v[j].key(), v[i].key()));
                assert(false);
            } else {
                assert(i + 1 <= j);
                assert(i + 1 < j ==> key_lt(v[i + 1].key(), v[j].key()));
                assert(false);
            }
        }
    }
}

/// Field containment: an instant the rule selects has its day selected by the
/// day rule, and its hour, minute and second each selected by their sets.
pub proof fn lemma_field_containment(conf: TimerConf, dt: DateTime)
    requires
        conf.matches(dt),
    ensures
        conf.days_spec().day_sel(
            first_weekday_of(dt.year as int, dt.month as int),
            dt.month_day.data_spec() as int,
        ),
        bit_sel(conf.hours_spec().mask(), dt.hour.data_spec()),
        bit_sel(conf.minuters_spec().mask(), dt.minuter.data_spec()),
        bit_sel(conf.seconds_spec().mask(), dt.second.data_spec()),
{
}

/// A day rule holding both components selects the union: a day matches
/// exactly when either component alone would select it.
pub proof fn lemma_both_components_union(md: MonthDays, wd: WeekDays, fw: int, d: int)
    ensures
        Days::MonthAndWeekDays(md, wd).day_sel(fw, d) <==> (Days::MonthDays(md).day_sel(fw, d)
            || Days::WeekDays(wd).day_sel(fw, d)),
{
}

/// A rule whose day component selects only day 31 matches only inside months
/// of 31 days: February and the 30-day months are passed over whole.
pub proof fn lemma_day31_skips_short_months(conf: TimerConf, md: MonthDays, dt: DateTime)
    requires
        conf.days_spec() == Days::MonthDays(md),
        forall|i: u64| #[trigger] bit_sel(md.mask(), i) ==> i == 31,
        dt.wf(),
        conf.matches(dt),
    ensures
        dt.month_day.data_spec() == 31,
        month_length_spec(dt.year as int, dt.month as int) == 31,
        dt.month != 2 && dt.month != 4 && dt.month != 6 && dt.month != 9 && dt.month != 11,
{
    assert(bit_sel(md.mask(), dt.month_day.data_spec()));
}

} // verus!
