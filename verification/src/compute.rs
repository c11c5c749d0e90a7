use vstd::arithmetic::div_mod::{lemma_add_mod_noop, lemma_small_mod};
use vstd::prelude::*;
use crate::conf::{wd_of, Days, Hours, Minuters, MonthDays, Seconds};
use crate::data::{
    key_le, key_lt, month_length_spec, DateTime, Hour, Minuter, MonthDay, Second, WeekDay,
    YEAR_MAX,
};
use crate::traits::{
    bit_sel, is_min_sel, mask_some_between, mask_within, AsData, Computer, ConfigOperator,
    FromData,
};

verus! {

/// The weekday (1 = Monday, ..., 7 = Sunday) on which the first day of month
/// `m` of year `y` falls, in the proleptic Gregorian calendar. The calendar
/// crate supplies it; it is a fixed function of year and month alone.
pub uninterp spec fn first_weekday_of(y: int, m: int) -> int;

/// Relies on chrono's NaiveDate::from_ymd_opt and Datelike::weekday: the
/// weekday of the first day of the given month, renumbered Monday = 1 through
/// Sunday = 7. It depends on year and month alone, and the year range asked
/// for here lies strictly inside the range chrono accepts, so the date always
/// exists.
#[verifier::external_body]
pub(crate) fn first_weekday(year: i32, month: u8) -> (r: u8)
    requires
        0 <= year <= YEAR_MAX,
        1 <= month <= 12,
    ensures
        1 <= r <= 7,
        r as int == first_weekday_of(year as int, month as int),
{
    let date = chrono::NaiveDate::from_ymd_opt(year, month as u32, 1).unwrap();
    match chrono::Datelike::weekday(&date) {
        chrono::Weekday::Mon => 1,
        chrono::Weekday::Tue => 2,
        chrono::Weekday::Wed => 3,
        chrono::Weekday::Thu => 4,
        chrono::Weekday::Fri => 5,
        chrono::Weekday::Sat => 6,
        chrono::Weekday::Sun => 7,
    }
}

/// The number of days of month `month` of year `year`.
pub fn month_length(year: i32, month: u8) -> (r: u8)
    requires
        0 <= year,
        1 <= month <= 12,
    ensures
        r as int == month_length_spec(year as int, month as int),
        28 <= r <= 31,
{
    if month == 2 {
        if year % 4 == 0 && (year % 100 != 0 || year % 400 == 0) {
            29
        } else {
            28
        }
    } else if month == 4 || month == 6 || month == 9 || month == 11 {
        30
    } else {
        31
    }
}

/// The month that follows `(y, m)`.
pub open spec fn next_ym(y: int, m: int) -> (int, int) {
    if m == 12 {
        (y + 1, 1)
    } else {
        (y, m + 1)
    }
}

/// Strict order on (year, month) pairs.
pub open spec fn ym_lt(y1: int, m1: int, y2: int, m2: int) -> bool {
    y1 < y2 || (y1 == y2 && m1 < m2)
}

/// Order on (year, month) pairs.
pub open spec fn ym_le(y1: int, m1: int, y2: int, m2: int) -> bool {
    y1 < y2 || (y1 == y2 && m1 <= m2)
}

/// The first day of the month after the given one, as a (year, month) pair.
pub fn next_month(year: i32, month: u8) -> (r: (i32, u8))
    requires
        1 <= month <= 12,
        month == 12 ==> year < YEAR_MAX,
    ensures
        (r.0 as int, r.1 as int) == next_ym(year as int, month as int),
{
    if month == 12 {
        (year + 1, 1)
    } else {
        (year, month + 1)
    }
}

/// A month of fewer than 31 days is always followed by a month of 31 days.
pub proof fn lemma_short_month_next(y: int, m: int)
    requires
        1 <= m <= 12,
        month_length_spec(y, m) < 31,
    ensures
        month_length_spec(next_ym(y, m).0, next_ym(y, m).1) == 31,
{
}

/// In a month whose first day falls on weekday `fw`, weekday `w` first occurs
/// on day `((w - fw) % 7) + 1`, within the first seven days.
pub proof fn lemma_weekday_inverse(fw: int, w: int)
    requires
        1 <= w <= 7,
    ensures
        ({
            let d = ((w - fw) % 7) + 1;
            1 <= d <= 7 && wd_of(fw, d) == w
        }),
{
    let d = ((w - fw) % 7) + 1;
    assert(0 <= (w - fw) % 7 < 7);
    lemma_add_mod_noop(fw - 1, (w - fw) % 7, 7);
    lemma_small_mod(((w - fw) % 7) as nat, 7);
    assert(((w - fw) % 7) % 7 == (w - fw) % 7);
    lemma_add_mod_noop(fw - 1, w - fw, 7);
    assert((fw - 1 + (w - fw) % 7) % 7 == (w - 1) % 7);
    lemma_small_mod((w - 1) as nat, 7);
}

/// A well-formed day rule selects a day in every month.
pub proof fn lemma_day_sel_nonempty(days: Days, fw: int)
    requires
        days.wf(),
    ensures
        exists|d: int| 1 <= d <= 31 && #[trigger] days.day_sel(fw, d),
{
    match days {
        Days::MonthDays(md) => {
            let i = choose|i: u64| 1 <= i <= 31 && #[trigger] bit_sel(md.mask(), i);
            assert(days.day_sel(fw, i as int));
        },
        Days::WeekDays(wd) => {
            let w = choose|w: u64| 1 <= w <= 7 && #[trigger] bit_sel(wd.mask(), w);
            lemma_weekday_inverse(fw, w as int);
            let d = ((w - fw) % 7) + 1;
            assert(days.day_sel(fw, d));
        },
        Days::MonthAndWeekDays(md, wd) => {
            let i = choose|i: u64| 1 <= i <= 31 && #[trigger] bit_sel(md.mask(), i);
            assert(days.day_sel(fw, i as int));
        },
    }
}

/// Which instants (as six-field keys) a rule made of a day rule and three
/// time-field masks selects.
pub open spec fn rule_sel(
    days: Days,
    hm: u64,
    mm: u64,
    sm: u64,
    k: (int, int, int, int, int, int),
) -> bool {
    &&& days.day_sel(first_weekday_of(k.0, k.1), k.2)
    &&& 0 <= k.3 <= 23 && bit_sel(hm, k.3 as u64)
    &&& 0 <= k.4 <= 59 && bit_sel(mm, k.4 as u64)
    &&& 0 <= k.5 <= 59 && bit_sel(sm, k.5 as u64)
}

/// A six-field key that is a real instant of the supported year range.
pub open spec fn key_valid(k: (int, int, int, int, int, int)) -> bool {
    &&& 0 <= k.0 <= YEAR_MAX
    &&& 1 <= k.1 <= 12
    &&& 1 <= k.2 <= month_length_spec(k.0, k.1)
    &&& 0 <= k.3 <= 23
    &&& 0 <= k.4 <= 59
    &&& 0 <= k.5 <= 59
}

/// A time-field cursor: the field's set, the position the search starts from,
/// and the value finally chosen.
pub struct TimeUnit<T: ConfigOperator> {
    index: T::DataTy,
    conf: T,
    val: u64,
}

impl<T: ConfigOperator> TimeUnit<T> {
    /// The position the search starts from.
    pub closed spec fn index_spec(self) -> u64 {
        self.index.data_spec()
    }

    /// The field set's bitmask.
    pub closed spec fn mask(self) -> u64 {
        self.conf.mask()
    }

    /// The chosen value.
    pub closed spec fn val_spec(self) -> u64 {
        self.val
    }

    /// The set stays within the field's range and selects something, and the
    /// start position is a field value.
    pub open spec fn wf(self) -> bool {
        &&& T::min_spec() <= self.index_spec() <= T::max_spec()
        &&& mask_within(self.mask(), T::min_spec(), T::max_spec())
        &&& mask_some_between(self.mask(), T::min_spec(), T::max_spec())
    }

    pub fn new(index: T::DataTy, conf: T) -> (r: Self)
        ensures
            r.index_spec() == index.data_spec(),
            r.mask() == conf.mask(),
            r.val_spec() == index.data_spec(),
    {
        let val = index;
        Self { index, conf, val: val.as_data() }
    }

    /// Move the cursor to the set's smallest value, as both the new start
    /// position and the chosen value.
    pub fn update_to_next_ring(&mut self)
        requires
            old(self).wf(),
        ensures
            final(self).mask() == old(self).mask(),
            final(self).wf(),
            is_min_sel(final(self).mask(), final(self).index_spec()),
            final(self).val_spec() == final(self).index_spec(),
    {
        proof {
            T::range_facts();
        }
        self.index = self.conf.min_val();
        self.val = self.index.as_data();
        proof {
            assert forall|j: u64| j < final(self).index_spec() implies !bit_sel(
                final(self).mask(),
                j,
            ) by {
                if bit_sel(self.mask(), j) {
                    assert(T::min_spec() <= j);
                }
            }
        }
    }

    /// The start position.
    pub fn index(&self) -> (r: T::DataTy)
        ensures
            r.data_spec() == self.index_spec(),
    {
        self.index
    }

    /// Whether the start position itself is selected.
    pub fn is_match(&self) -> (r: bool)
        ensures
            r == bit_sel(self.mask(), self.index_spec()),
    {
        self.conf.contain(self.index)
    }

    /// The smallest selected value strictly after the start position, if any.
    pub fn next_val(&self) -> (r: Option<T::DataTy>)
        ensures
            r matches Some(v) ==> self.index_spec() < v.data_spec() <= T::max_spec() && bit_sel(
                self.mask(),
                v.data_spec(),
            ) && (forall|j: u64|
                self.index_spec() < j < v.data_spec() ==> !bit_sel(self.mask(), j)),
            r is None ==> forall|j: u64|
                self.index_spec() < j <= T::max_spec() ==> !bit_sel(self.mask(), j),
    {
        self.conf.next(self.index)
    }

    /// The set's smallest value.
    pub fn min_val(&self) -> (r: T::DataTy)
        requires
            self.wf(),
        ensures
            is_min_sel(self.mask(), r.data_spec()),
    {
        proof {
            T::range_facts();
        }
        let r = self.conf.min_val();
        proof {
            assert forall|j: u64| j < r.data_spec() implies !bit_sel(self.mask(), j) by {
                if bit_sel(self.mask(), j) {
                    assert(T::min_spec() <= j);
                }
            }
        }
        r
    }

    /// Record the chosen value.
    pub fn val_mut(&mut self, val: T::DataTy)
        ensures
            final(self).val_spec() == val.data_spec(),
            final(self).index_spec() == old(self).index_spec(),
            final(self).mask() == old(self).mask(),
    {
        self.val = val.as_data();
    }

    /// The chosen value.
    pub fn val(&self) -> (r: u64)
        ensures
            r == self.val_spec(),
    {
        self.val
    }
}

/// The day cursor: the day rule, its materialization for the current month,
/// and that month's year and length.
pub struct DayUnit {
    year: i32,
    month: u8,
    days: Days,
    day: MonthDay,
    max: u8,
    conf: MonthDays,
    val: u8,
}

impl DayUnit {
    /// The current year.
    pub closed spec fn year_spec(self) -> int {
        self.year as int
    }

    /// The current month.
    pub closed spec fn month_spec(self) -> int {
        self.month as int
    }

    /// The day rule.
    pub closed spec fn days_spec(self) -> Days {
        self.days
    }

    /// The candidate day-of-month.
    pub closed spec fn day_spec(self) -> int {
        self.day.data_spec() as int
    }

    /// The current month's length.
    pub closed spec fn max_spec(self) -> int {
        self.max as int
    }

    /// The bitmask of the day rule materialized for the current month.
    pub closed spec fn conf_mask(self) -> u64 {
        self.conf.mask()
    }

    /// The chosen day-of-month.
    pub closed spec fn val_spec(self) -> int {
        self.val as int
    }

    /// The month context is real, the rule is well-formed, the candidate day
    /// exists in the month, and the materialized set agrees with the rule for
    /// this month.
    pub open spec fn wf(self) -> bool {
        &&& 0 <= self.year_spec() <= YEAR_MAX
        &&& 1 <= self.month_spec() <= 12
        &&& self.days_spec().wf()
        &&& self.max_spec() == month_length_spec(self.year_spec(), self.month_spec())
        &&& 1 <= self.day_spec() <= self.max_spec()
        &&& self.val_spec() == self.day_spec()
        &&& forall|d: u64| #[trigger] bit_sel(self.conf_mask(), d) <==> self.days_spec().day_sel(
            first_weekday_of(self.year_spec(), self.month_spec()),
            d as int,
        )
    }

    pub fn new(
        year: i32,
        month: u8,
        days: Days,
        day: MonthDay,
        first_week_day: WeekDay,
        max: u8,
    ) -> (r: Self)
        requires
            0 <= year <= YEAR_MAX,
            1 <= month <= 12,
            days.wf(),
            first_week_day.data_spec() as int == first_weekday_of(year as int, month as int),
            max as int == month_length_spec(year as int, month as int),
            1 <= day.data_spec() <= max as u64,
        ensures
            r.wf(),
            r.year_spec() == year as int,
            r.month_spec() == month as int,
            r.days_spec() == days,
            r.day_spec() == day.data_spec() as int,
            r.val_spec() == day.data_spec() as int,
            r.max_spec() == max as int,
    {
        proof {
            day.lemma_data_valid();
        }
        let conf = days.month_days(first_week_day);
        let val = day.as_data() as u8;
        Self { year, month, days, day, max, conf, val }
    }

    /// The current year.
    pub fn year(&self) -> (r: i32)
        ensures
            r as int == self.year_spec(),
    {
        self.year
    }

    /// The current month.
    pub fn month(&self) -> (r: u8)
        ensures
            r as int == self.month_spec(),
    {
        self.month
    }

    /// Whether the candidate day is selected for the current month.
    pub fn is_match(&self) -> (r: bool)
        ensures
            r == bit_sel(self.conf_mask(), self.day_spec() as u64),
    {
        self.conf.contain(self.day)
    }

    /// The next selected day of the current month after the candidate, if the
    /// month still holds one.
    pub fn next_val(&self) -> (r: Option<MonthDay>)
        requires
            self.wf(),
        ensures
            r matches Some(d) ==> self.day_spec() < d.data_spec() <= self.max_spec() && bit_sel(
                self.conf_mask(),
                d.data_spec(),
            ) && (forall|j: u64|
                self.day_spec() < j < d.data_spec() ==> !bit_sel(self.conf_mask(), j)),
            r is None ==> forall|j: u64|
                self.day_spec() < j <= self.max_spec() ==> !bit_sel(self.conf_mask(), j),
    {
        if let Some(next) = self.conf.next(self.day) {
            if next.as_data() > self.max as u64 {
                None
            } else {
                Some(next)
            }
        } else {
            None
        }
    }

    /// The smallest selected day of the current month's materialized set.
    pub fn min_val(&self) -> (r: MonthDay)
        requires
            self.wf(),
        ensures
            is_min_sel(self.conf_mask(), r.data_spec()),
    {
        proof {
            crate::conf::MonthDays::range_facts();
            let fw = first_weekday_of(self.year_spec(), self.month_spec());
            lemma_day_sel_nonempty(self.days_spec(), fw);
            let d0 = choose|d: int| 1 <= d <= 31 && #[trigger] self.days_spec().day_sel(fw, d);
            assert(bit_sel(self.conf_mask(), d0 as u64));
            assert(mask_some_between(self.conf_mask(), 1, 31));
        }
        let r = self.conf.min_val();
        proof {
            assert forall|j: u64| j < r.data_spec() implies !bit_sel(self.conf_mask(), j) by {
                if bit_sel(self.conf_mask(), j) {
                    assert(self.days_spec().day_sel(
                        first_weekday_of(self.year_spec(), self.month_spec()),
                        j as int,
                    ));
                }
            }
        }
        r
    }

    /// Record the chosen day, which becomes the new candidate.
    pub fn val_mut(&mut self, d: MonthDay)
        ensures
            final(self).day_spec() == d.data_spec() as int,
            final(self).val_spec() == d.data_spec() as int,
            final(self).year_spec() == old(self).year_spec(),
            final(self).month_spec() == old(self).month_spec(),
            final(self).days_spec() == old(self).days_spec(),
            final(self).max_spec() == old(self).max_spec(),
            final(self).conf_mask() == old(self).conf_mask(),
    {
        proof {
            d.lemma_data_valid();
        }
        self.val = d.as_data() as u8;
        self.day = d;
    }

    /// The chosen day.
    pub fn val(&self) -> (r: u64)
        ensures
            r as int == self.val_spec(),
    {
        self.val as u64
    }

    /// Roll to the nearest later month that holds a selected day, and stand on
    /// the smallest selected day of that month. Every month passed over holds
    /// no selected day at all.
    pub fn update_to_next_ring(&mut self)
        requires
            old(self).wf(),
            old(self).year_spec() < YEAR_MAX,
        ensures
            final(self).wf(),
            final(self).days_spec() == old(self).days_spec(),
            final(self).year_spec() <= old(self).year_spec() + 1,
            ym_lt(
                old(self).year_spec(),
                old(self).month_spec(),
                final(self).year_spec(),
                final(self).month_spec(),
            ),
            is_min_sel(final(self).conf_mask(), final(self).day_spec() as u64),
            final(self).val_spec() == final(self).day_spec(),
            forall|yy: int, mm: int, dd: int|
                ym_lt(old(self).year_spec(), old(self).month_spec(), yy, mm) && ym_lt(
                    yy,
                    mm,
                    final(self).year_spec(),
                    final(self).month_spec(),
                ) && 1 <= mm <= 12 && 1 <= dd <= month_length_spec(yy, mm)
                    ==> !(#[trigger] old(self).days_spec().day_sel(first_weekday_of(yy, mm), dd)),
    {
        let ghost y0 = self.year_spec();
        let ghost m0 = self.month_spec();
        let ghost days0 = self.days_spec();
        let mut y = self.year;
        let mut m = self.month;
        let ghost mut fails: int = 0;
        loop
            invariant
                *self == *old(self),
                self.wf(),
                self.year_spec() < YEAR_MAX,
                y0 == self.year_spec(),
                m0 == self.month_spec(),
                days0 == self.days_spec(),
                ym_le(y0, m0, y as int, m as int),
                0 <= y as int <= YEAR_MAX,
                y as int <= y0 + 1,
                1 <= m as int <= 12,
                m == 12 ==> y < YEAR_MAX,
                0 <= fails <= 1,
                fails == 0 ==> y as int == y0 && m as int == m0,
                fails == 1 ==> m != 12,
                fails == 1 ==> month_length_spec(next_ym(y as int, m as int).0, next_ym(y as int, m as int).1) == 31,
                forall|yy: int, mm: int, dd: int|
                    ym_lt(y0, m0, yy, mm) && ym_le(yy, mm, y as int, m as int) && 1 <= mm <= 12
                        && 1 <= dd <= month_length_spec(yy, mm) ==> !(#[trigger] days0.day_sel(
                        first_weekday_of(yy, mm),
                        dd,
                    )),
            decreases 1 - fails,
        {
            let ghost py = y as int;
            let ghost pm = m as int;
            let nx = next_month(y, m);
            y = nx.0;
            m = nx.1;
            let fwn = first_weekday(y, m);
            let fw_day = WeekDay::from_data(fwn as u64);
            let conf = self.days.month_days(fw_day);
            let len = month_length(y, m);
            proof {
                lemma_day_sel_nonempty(days0, fwn as int);
                let d0 = choose|d: int| 1 <= d <= 31 && #[trigger] days0.day_sel(fwn as int, d);
                assert(bit_sel(conf.mask(), d0 as u64));
                assert(mask_some_between(conf.mask(), 1, 31));
                assert(mask_within(conf.mask(), 1, 31)) by {
                    assert forall|i: u64| #[trigger] bit_sel(conf.mask(), i) implies 1 <= i <= 31 by {
                        assert(days0.day_sel(fwn as int, i as int));
                    }
                }
            }
            let dmin = conf.min_val();
            if dmin.as_data() <= len as u64 {
                proof {
                    // months strictly between the start and the new month are
                    // exactly those passed over earlier
                    assert forall|yy: int, mm: int, dd: int|
                        ym_lt(y0, m0, yy, mm) && ym_lt(yy, mm, y as int, m as int) && 1 <= mm <= 12
                            && 1 <= dd <= month_length_spec(yy, mm) implies !(
                    #[trigger] days0.day_sel(first_weekday_of(yy, mm), dd)) by {
                        assert(ym_le(yy, mm, py, pm));
                    }
                }
                self.year = y;
                self.month = m;
                self.conf = conf;
                self.max = len;
                self.day = dmin;
                self.val = dmin.as_data() as u8;
                return;
            }
            proof {
                // this month holds no selected day: its smallest selected day
                // lies beyond its length
                assert forall|yy: int, mm: int, dd: int|
                    ym_lt(y0, m0, yy, mm) && ym_le(yy, mm, y as int, m as int) && 1 <= mm <= 12
                        && 1 <= dd <= month_length_spec(yy, mm) implies !(
                #[trigger] days0.day_sel(first_weekday_of(yy, mm), dd)) by {
                    if yy == y as int && mm == m as int {
                        assert(dd <= len as int);
                        assert(dd < dmin.data_spec() as int);
                        assert(!bit_sel(conf.mask(), dd as u64));
                    } else {
                        assert(ym_le(yy, mm, py, pm));
                    }
                }
                if fails == 1 {
                    // the previous month already promised this one 31 days
                    assert(month_length_spec(y as int, m as int) == 31);
                    assert(dmin.data_spec() <= 31);
                    assert(false);
                }
                // this month is short, so the next one has 31 days; December
                // has 31 days, so the failed month is never December
                assert(m != 12);
                lemma_short_month_next(y as int, m as int);
                fails = fails + 1;
            }
        }
    }
}

impl<T: ConfigOperator> Computer for TimeUnit<T> {
    type DataTy = T::DataTy;

    open spec fn chosen_spec(self) -> u64 {
        self.val_spec()
    }

    open spec fn inv(self) -> bool {
        self.wf()
    }

    fn update_to_next_ring(&mut self) {
        TimeUnit::update_to_next_ring(self)
    }

    fn is_match(&self) -> bool {
        TimeUnit::is_match(self)
    }

    fn next_val(&self) -> Option<T::DataTy> {
        TimeUnit::next_val(self)
    }

    fn min_val(&self) -> T::DataTy {
        TimeUnit::min_val(self)
    }

    fn val_mut(&mut self, val: T::DataTy) {
        TimeUnit::val_mut(self, val)
    }

    fn val(&self) -> u64 {
        TimeUnit::val(self)
    }
}

impl Computer for DayUnit {
    type DataTy = MonthDay;

    open spec fn chosen_spec(self) -> u64 {
        self.val_spec() as u64
    }

    open spec fn inv(self) -> bool {
        self.wf() && self.year_spec() < YEAR_MAX
    }

    fn update_to_next_ring(&mut self) {
        DayUnit::update_to_next_ring(self)
    }

    fn is_match(&self) -> bool {
        DayUnit::is_match(self)
    }

    fn next_val(&self) -> Option<MonthDay> {
        DayUnit::next_val(self)
    }

    fn min_val(&self) -> MonthDay {
        DayUnit::min_val(self)
    }

    fn val_mut(&mut self, val: MonthDay) {
        DayUnit::val_mut(self, val)
    }

    fn val(&self) -> u64 {
        DayUnit::val(self)
    }
}

/// Strict order on (year, month, day) triples.
pub open spec fn dmy_lt(y1: int, m1: int, d1: int, y2: int, m2: int, d2: int) -> bool {
    y1 < y2 || (y1 == y2 && (m1 < m2 || (m1 == m2 && d1 < d2)))
}

/// The cascading matcher: one cursor per field, most significant first.
pub struct Composition {
    day: DayUnit,
    hour: TimeUnit<Hours>,
    minuter: TimeUnit<Minuters>,
    second: TimeUnit<Seconds>,
}

impl Composition {
    /// The day cursor.
    pub closed spec fn day_unit(self) -> DayUnit {
        self.day
    }

    /// The hour cursor.
    pub closed spec fn hour_unit(self) -> TimeUnit<Hours> {
        self.hour
    }

    /// The minute cursor.
    pub closed spec fn minuter_unit(self) -> TimeUnit<Minuters> {
        self.minuter
    }

    /// The second cursor.
    pub closed spec fn second_unit(self) -> TimeUnit<Seconds> {
        self.second
    }

    /// The day rule driving the day cursor.
    pub open spec fn days_spec(self) -> Days {
        self.day_unit().days_spec()
    }

    /// The hour set's bitmask.
    pub open spec fn hmask(self) -> u64 {
        self.hour_unit().mask()
    }

    /// The minute set's bitmask.
    pub open spec fn mimask(self) -> u64 {
        self.minuter_unit().mask()
    }

    /// The second set's bitmask.
    pub open spec fn smask(self) -> u64 {
        self.second_unit().mask()
    }

    pub open spec fn wf(self) -> bool {
        &&& self.day_unit().wf()
        &&& self.hour_unit().wf()
        &&& self.minuter_unit().wf()
        &&& self.second_unit().wf()
    }

    /// The instant the search starts from, as a six-field key.
    pub open spec fn pos(self) -> (int, int, int, int, int, int) {
        (
            self.day_unit().year_spec(),
            self.day_unit().month_spec(),
            self.day_unit().day_spec(),
            self.hour_unit().index_spec() as int,
            self.minuter_unit().index_spec() as int,
            self.second_unit().index_spec() as int,
        )
    }

    /// Which keys this matcher's rule selects.
    pub open spec fn sel(self, k: (int, int, int, int, int, int)) -> bool {
        rule_sel(self.days_spec(), self.hmask(), self.mimask(), self.smask(), k)
    }

    /// Build a matcher that starts at the instant `now`.
    pub fn from(
        now: DateTime,
        days: Days,
        hours: Hours,
        minuters: Minuters,
        seconds: Seconds,
    ) -> (r: Self)
        requires
            now.wf(),
            days.wf(),
            hours.wf(),
            minuters.wf(),
            seconds.wf(),
        ensures
            r.wf(),
            r.pos() == now.key(),
            r.days_spec() == days,
            r.hmask() == hours.mask(),
            r.mimask() == minuters.mask(),
            r.smask() == seconds.mask(),
    {
        proof {
            now.month_day.lemma_data_valid();
            now.hour.lemma_data_valid();
            now.minuter.lemma_data_valid();
            now.second.lemma_data_valid();
        }
        let year = now.year;
        let month = now.month;
        let day = now.month_day;
        let fwn = first_weekday(year, month);
        let first_week_day = WeekDay::from_data(fwn as u64);
        let max = month_length(year, month);
        let day_unit = DayUnit::new(year, month, days, day, first_week_day, max);
        let hour: TimeUnit<Hours> = TimeUnit::new(now.hour, hours);
        let minuter = TimeUnit::new(now.minuter, minuters);
        let second = TimeUnit::new(now.second, seconds);
        Composition::new(day_unit, hour, minuter, second)
    }

    pub fn new(
        day: DayUnit,
        hour: TimeUnit<Hours>,
        minuter: TimeUnit<Minuters>,
        second: TimeUnit<Seconds>,
    ) -> (r: Self)
        ensures
            r.day_unit() == day,
            r.hour_unit() == hour,
            r.minuter_unit() == minuter,
            r.second_unit() == second,
    {
        Self { day, hour, minuter, second }
    }

    /// Reset the second cursor to its set's smallest value.
    fn second_update_to_next_ring(&mut self)
        requires
            old(self).wf(),
        ensures
            final(self).wf(),
            final(self).day_unit() == old(self).day_unit(),
            final(self).hour_unit() == old(self).hour_unit(),
            final(self).minuter_unit() == old(self).minuter_unit(),
            final(self).smask() == old(self).smask(),
            is_min_sel(final(self).smask(), final(self).second_unit().index_spec()),
            final(self).second_unit().val_spec() == final(self).second_unit().index_spec(),
    {
        self.second.update_to_next_ring();
    }

    /// Reset the minute cursor, and below it the second cursor.
    fn minuter_update_to_next_ring(&mut self)
        requires
            old(self).wf(),
        ensures
            final(self).wf(),
            final(self).day_unit() == old(self).day_unit(),
            final(self).hour_unit() == old(self).hour_unit(),
            final(self).mimask() == old(self).mimask(),
            final(self).smask() == old(self).smask(),
            is_min_sel(final(self).mimask(), final(self).minuter_unit().index_spec()),
            final(self).minuter_unit().val_spec() == final(self).minuter_unit().index_spec(),
            is_min_sel(final(self).smask(), final(self).second_unit().index_spec()),
            final(self).second_unit().val_spec() == final(self).second_unit().index_spec(),
    {
        self.minuter.update_to_next_ring();
        self.second_update_to_next_ring();
    }

    /// Reset the hour cursor, and below it the minute and second cursors.
    fn hour_update_to_next_ring(&mut self)
        requires
            old(self).wf(),
        ensures
            final(self).wf(),
            final(self).day_unit() == old(self).day_unit(),
            final(self).hmask() == old(self).hmask(),
            final(self).mimask() == old(self).mimask(),
            final(self).smask() == old(self).smask(),
            is_min_sel(final(self).hmask(), final(self).hour_unit().index_spec()),
            final(self).hour_unit().val_spec() == final(self).hour_unit().index_spec(),
            is_min_sel(final(self).mimask(), final(self).minuter_unit().index_spec()),
            final(self).minuter_unit().val_spec() == final(self).minuter_unit().index_spec(),
            is_min_sel(final(self).smask(), final(self).second_unit().index_spec()),
            final(self).second_unit().val_spec() == final(self).second_unit().index_spec(),
    {
        self.hour.update_to_next_ring();
        self.minuter_update_to_next_ring();
    }

    /// Choose the smallest selected second at or after the start position, if
    /// this minute still holds one.
    fn match_second(&mut self) -> (r: bool)
        requires
            old(self).wf(),
        ensures
            final(self).wf(),
            final(self).day_unit() == old(self).day_unit(),
            final(self).hour_unit() == old(self).hour_unit(),
            final(self).minuter_unit() == old(self).minuter_unit(),
            final(self).second_unit().index_spec() == old(self).second_unit().index_spec(),
            final(self).smask() == old(self).smask(),
            r ==> old(self).second_unit().index_spec() <= final(self).second_unit().val_spec()
                <= 59 && bit_sel(old(self).smask(), final(self).second_unit().val_spec()) && (
            forall|j: u64|
                old(self).second_unit().index_spec() <= j < final(self).second_unit().val_spec()
                    ==> !bit_sel(old(self).smask(), j)),
            !r ==> forall|j: u64|
                old(self).second_unit().index_spec() <= j <= 59 ==> !bit_sel(old(self).smask(), j),
    {
        if self.second.is_match() {
            let idx = self.second.index();
            self.second.val_mut(idx);
            return true;
        }
        if let Some(sec) = self.second.next_val() {
            self.second.val_mut(sec);
            true
        } else {
            false
        }
    }

    /// Choose the smallest selected (minute, second) pair at or after the
    /// start position, if this hour still holds one.
    fn match_minuter(&mut self) -> (r: bool)
        requires
            old(self).wf(),
        ensures
            final(self).wf(),
            final(self).day_unit() == old(self).day_unit(),
            final(self).hour_unit() == old(self).hour_unit(),
            final(self).minuter_unit().index_spec() == old(self).minuter_unit().index_spec(),
            final(self).mimask() == old(self).mimask(),
            final(self).smask() == old(self).smask(),
            r ==> ({
                let mi0 = old(self).minuter_unit().index_spec();
                let si0 = old(self).second_unit().index_spec();
                let mv = final(self).minuter_unit().val_spec();
                let sv = final(self).second_unit().val_spec();
                &&& mv <= 59 && sv <= 59
                &&& bit_sel(old(self).mimask(), mv)
                &&& bit_sel(old(self).smask(), sv)
                &&& (mi0 < mv || (mi0 == mv && si0 <= sv))
                &&& forall|a: u64, b: u64|
                    a <= 59 && b <= 59 && (mi0 < a || (mi0 == a && si0 <= b)) && (a < mv || (a == mv
                        && b < sv)) ==> !(#[trigger] bit_sel(old(self).mimask(), a)
                        && #[trigger] bit_sel(old(self).smask(), b))
            }),
            !r ==> forall|a: u64, b: u64|
                a <= 59 && b <= 59 && (old(self).minuter_unit().index_spec() < a || (old(
                    self,
                ).minuter_unit().index_spec() == a && old(self).second_unit().index_spec() <= b))
                    ==> !(#[trigger] bit_sel(old(self).mimask(), a) && #[trigger] bit_sel(
                    old(self).smask(),
                    b,
                )),
    {
        if self.minuter.is_match() {
            let idx = self.minuter.index();
            self.minuter.val_mut(idx);
            if self.match_second() {
                return true;
            }
        }
        if let Some(m) = self.minuter.next_val() {
            self.minuter.val_mut(m);
            self.second_update_to_next_ring();
            true
        } else {
            false
        }
    }
}

impl Composition {
    /// Choose the smallest selected (hour, minute, second) triple at or after
    /// the start position, if this day still holds one.
    fn match_hour(&mut self) -> (r: bool)
        requires
            old(self).wf(),
        ensures
            final(self).wf(),
            final(self).day_unit() == old(self).day_unit(),
            final(self).hour_unit().index_spec() == old(self).hour_unit().index_spec(),
            final(self).hmask() == old(self).hmask(),
            final(self).mimask() == old(self).mimask(),
            final(self).smask() == old(self).smask(),
            r ==> ({
                let h0 = old(self).hour_unit().index_spec();
                let mi0 = old(self).minuter_unit().index_spec();
                let si0 = old(self).second_unit().index_spec();
                let hv = final(self).hour_unit().val_spec();
                let mv = final(self).minuter_unit().val_spec();
                let sv = final(self).second_unit().val_spec();
                &&& hv <= 23 && mv <= 59 && sv <= 59
                &&& bit_sel(old(self).hmask(), hv)
                &&& bit_sel(old(self).mimask(), mv)
                &&& bit_sel(old(self).smask(), sv)
                &&& (h0 < hv || (h0 == hv && (mi0 < mv || (mi0 == mv && si0 <= sv))))
                &&& forall|a: u64, b: u64, c: u64|
                    a <= 23 && b <= 59 && c <= 59 && (h0 < a || (h0 == a && (mi0 < b || (mi0 == b
                        && si0 <= c)))) && (a < hv || (a == hv && (b < mv || (b == mv && c < sv))))
                        ==> !(#[trigger] bit_sel(old(self).hmask(), a) && #[trigger] bit_sel(
                        old(self).mimask(),
                        b,
                    ) && #[trigger] bit_sel(old(self).smask(), c))
            }),
            !r ==> forall|a: u64, b: u64, c: u64|
                a <= 23 && b <= 59 && c <= 59 && (old(self).hour_unit().index_spec() < a || (old(
                    self,
                ).hour_unit().index_spec() == a && (old(self).minuter_unit().index_spec() < b || (
                old(self).minuter_unit().index_spec() == b
                    && old(self).second_unit().index_spec() <= c)))) ==> !(#[trigger] bit_sel(
                    old(self).hmask(),
                    a,
                ) && #[trigger] bit_sel(old(self).mimask(), b) && #[trigger] bit_sel(
                    old(self).smask(),
                    c,
                )),
    {
        if self.hour.is_match() {
            let idx = self.hour.index();
            self.hour.val_mut(idx);
            if self.match_minuter() {
                return true;
            }
        }
        if let Some(h) = self.hour.next_val() {
            self.hour.val_mut(h);
            self.minuter_update_to_next_ring();
            true
        } else {
            false
        }
    }

    /// Step the day cursor to the nearest later selected day, rolling months
    /// as needed, and reset every time cursor to its smallest value.
    fn next_day(&mut self)
        requires
            old(self).wf(),
            old(self).day_unit().year_spec() < YEAR_MAX,
        ensures
            final(self).wf(),
            final(self).days_spec() == old(self).days_spec(),
            final(self).day_unit().year_spec() <= old(self).day_unit().year_spec() + 1,
            final(self).hmask() == old(self).hmask(),
            final(self).mimask() == old(self).mimask(),
            final(self).smask() == old(self).smask(),
            dmy_lt(
                old(self).day_unit().year_spec(),
                old(self).day_unit().month_spec(),
                old(self).day_unit().day_spec(),
                final(self).day_unit().year_spec(),
                final(self).day_unit().month_spec(),
                final(self).day_unit().day_spec(),
            ),
            bit_sel(final(self).day_unit().conf_mask(), final(self).day_unit().day_spec() as u64),
            forall|yy: int, mm: int, dd: int|
                1 <= mm <= 12 && 1 <= dd <= month_length_spec(yy, mm) && dmy_lt(
                    old(self).day_unit().year_spec(),
                    old(self).day_unit().month_spec(),
                    old(self).day_unit().day_spec(),
                    yy,
                    mm,
                    dd,
                ) && dmy_lt(
                    yy,
                    mm,
                    dd,
                    final(self).day_unit().year_spec(),
                    final(self).day_unit().month_spec(),
                    final(self).day_unit().day_spec(),
                ) ==> !(#[trigger] old(self).days_spec().day_sel(first_weekday_of(yy, mm), dd)),
            is_min_sel(final(self).hmask(), final(self).hour_unit().index_spec()),
            final(self).hour_unit().val_spec() == final(self).hour_unit().index_spec(),
            is_min_sel(final(self).mimask(), final(self).minuter_unit().index_spec()),
            final(self).minuter_unit().val_spec() == final(self).minuter_unit().index_spec(),
            is_min_sel(final(self).smask(), final(self).second_unit().index_spec()),
            final(self).second_unit().val_spec() == final(self).second_unit().index_spec(),
    {
        let ghost du0 = self.day_unit();
        if let Some(day) = self.day.next_val() {
            self.day.val_mut(day);
            proof {
                assert forall|yy: int, mm: int, dd: int|
                    1 <= mm <= 12 && 1 <= dd <= month_length_spec(yy, mm) && dmy_lt(
                        du0.year_spec(),
                        du0.month_spec(),
                        du0.day_spec(),
                        yy,
                        mm,
                        dd,
                    ) && dmy_lt(
                        yy,
                        mm,
                        dd,
                        self.day_unit().year_spec(),
                        self.day_unit().month_spec(),
                        self.day_unit().day_spec(),
                    ) implies !(#[trigger] du0.days_spec().day_sel(
                    first_weekday_of(yy, mm),
                    dd,
                )) by {
                    assert(yy == du0.year_spec() && mm == du0.month_spec());
                    assert(du0.day_spec() < dd < self.day_unit().day_spec());
                    assert(!bit_sel(du0.conf_mask(), dd as u64));
                }
            }
        } else {
            self.day.update_to_next_ring();
            proof {
                let du1 = self.day_unit();
                assert forall|yy: int, mm: int, dd: int|
                    1 <= mm <= 12 && 1 <= dd <= month_length_spec(yy, mm) && dmy_lt(
                        du0.year_spec(),
                        du0.month_spec(),
                        du0.day_spec(),
                        yy,
                        mm,
                        dd,
                    ) && dmy_lt(yy, mm, dd, du1.year_spec(), du1.month_spec(), du1.day_spec())
                    implies !(#[trigger] du0.days_spec().day_sel(first_weekday_of(yy, mm), dd)) by {
                    if yy == du0.year_spec() && mm == du0.month_spec() {
                        assert(du0.day_spec() < dd <= du0.max_spec());
                        assert(!bit_sel(du0.conf_mask(), dd as u64));
                    } else if yy == du1.year_spec() && mm == du1.month_spec() {
                        assert(dd < du1.day_spec());
                        assert(!bit_sel(du1.conf_mask(), dd as u64));
                    } else {
                        assert(ym_lt(du0.year_spec(), du0.month_spec(), yy, mm));
                        assert(ym_lt(yy, mm, du1.year_spec(), du1.month_spec()));
                    }
                }
            }
        }
        self.hour_update_to_next_ring();
    }

    /// Assemble the instant the cursors stand on.
    fn to_datetime(&self) -> (r: DateTime)
        requires
            self.wf(),
            self.hour_unit().val_spec() <= 23,
            self.minuter_unit().val_spec() <= 59,
            self.second_unit().val_spec() <= 59,
        ensures
            r.wf(),
            r.key() == (
                self.day_unit().year_spec(),
                self.day_unit().month_spec(),
                self.day_unit().day_spec(),
                self.hour_unit().val_spec() as int,
                self.minuter_unit().val_spec() as int,
                self.second_unit().val_spec() as int,
            ),
            r.week_day.data_spec() as int == wd_of(
                first_weekday_of(r.year as int, r.month as int),
                r.month_day.data_spec() as int,
            ),
    {
        let year = self.day.year();
        let month = self.day.month();
        let d = self.day.val();
        let fw = first_weekday(year, month);
        let w = ((fw as u64 - 1) + (d - 1)) % 7 + 1;
        proof {
            crate::conf::lemma_wd_of_bounds(fw as int, d as int);
            assert(w as int == wd_of(fw as int, d as int));
        }
        DateTime {
            year,
            month,
            month_day: MonthDay::from_data(d),
            week_day: WeekDay::from_data(w),
            hour: Hour::from_data(self.hour.val()),
            minuter: Minuter::from_data(self.minuter.val()),
            second: Second::from_data(self.second.val()),
        }
    }

    /// The earliest instant at or after the start position that the rule
    /// selects: its day, hour, minute and second are all selected, and no
    /// valid instant between the start position and the result is.
    pub fn next(&mut self) -> (r: DateTime)
        requires
            old(self).wf(),
            old(self).day_unit().year_spec() < YEAR_MAX,
        ensures
            r.wf(),
            key_le(old(self).pos(), r.key()),
            r.year as int <= old(self).day_unit().year_spec() + 1,
            old(self).sel(r.key()),
            r.week_day.data_spec() as int == wd_of(
                first_weekday_of(r.year as int, r.month as int),
                r.month_day.data_spec() as int,
            ),
            forall|k: (int, int, int, int, int, int)|
                key_valid(k) && key_le(old(self).pos(), k) && key_lt(k, r.key()) ==> !(
                #[trigger] old(self).sel(k)),
    {
        let ghost c0 = *self;
        if self.day.is_match() {
            if self.match_hour() {
                let r = self.to_datetime();
                proof {
                    assert forall|k: (int, int, int, int, int, int)|
                        key_valid(k) && key_le(c0.pos(), k) && key_lt(k, r.key()) implies !(
                    #[trigger] c0.sel(k)) by {
                        assert(k.0 == c0.pos().0 && k.1 == c0.pos().1 && k.2 == c0.pos().2);
                    }
                }
                return r;
            }
        }
        let ghost cmid = *self;
        self.next_day();
        let ok = self.match_hour();
        proof {
            // after the day step every time cursor stands on its set's
            // smallest value, all selected, so the time match cannot fail
            assert(ok);
        }
        let r = self.to_datetime();
        proof {
            let du1 = self.day_unit();
            assert(r.key().3 == self.hour_unit().index_spec() as int);
            assert forall|k: (int, int, int, int, int, int)|
                key_valid(k) && key_le(c0.pos(), k) && key_lt(k, r.key()) implies !(
            #[trigger] c0.sel(k)) by {
                if k.0 == c0.pos().0 && k.1 == c0.pos().1 && k.2 == c0.pos().2 {
                    // still on the starting day: either the day is not
                    // selected, or its remaining time triples are not
                    if bit_sel(c0.day_unit().conf_mask(), k.2 as u64) {
                        assert(!(bit_sel(c0.hmask(), k.3 as u64) && bit_sel(c0.mimask(), k.4 as u64)
                            && bit_sel(c0.smask(), k.5 as u64)));
                    } else {
                        assert(!c0.days_spec().day_sel(first_weekday_of(k.0, k.1), k.2));
                    }
                } else if k.0 == du1.year_spec() && k.1 == du1.month_spec() && k.2
                    == du1.day_spec() {
                    // on the result's day, before the minima of the time sets
                    assert(!(bit_sel(c0.hmask(), k.3 as u64) && bit_sel(c0.mimask(), k.4 as u64)
                        && bit_sel(c0.smask(), k.5 as u64)));
                } else {
                    // a whole day strictly between: not selected
                    assert(dmy_lt(c0.pos().0, c0.pos().1, c0.pos().2, k.0, k.1, k.2));
                    assert(dmy_lt(k.0, k.1, k.2, du1.year_spec(), du1.month_spec(), du1.day_spec()));
                    assert(!c0.days_spec().day_sel(first_weekday_of(k.0, k.1), k.2));
                }
            }
        }
        r
    }
}

/// The instant one second after `dt`: the immediate successor among
/// well-formed instants. The weekday field is derived data and carried over
/// unchanged; the matcher computes correct weekdays for the instants it
/// returns.
pub(crate) fn succ_datetime(dt: &DateTime) -> (r: DateTime)
    requires
        dt.wf(),
        dt.year < YEAR_MAX,
    ensures
        r.wf(),
        key_lt(dt.key(), r.key()),
        r.year <= dt.year + 1,
        forall|k: (int, int, int, int, int, int)|
            key_valid(k) && key_lt(dt.key(), k) ==> key_le(r.key(), k),
{
    proof {
        dt.month_day.lemma_data_valid();
        dt.hour.lemma_data_valid();
        dt.minuter.lemma_data_valid();
        dt.second.lemma_data_valid();
    }
    let s = dt.second.as_data();
    if s < 59 {
        return DateTime { second: Second::from_data(s + 1), ..*dt };
    }
    let mi = dt.minuter.as_data();
    if mi < 59 {
        return DateTime {
            minuter: Minuter::from_data(mi + 1),
            second: Second::from_data(0),
            ..*dt
        };
    }
    let h = dt.hour.as_data();
    if h < 23 {
        return DateTime {
            hour: Hour::from_data(h + 1),
            minuter: Minuter::from_data(0),
            second: Second::from_data(0),
            ..*dt
        };
    }
    let d = dt.month_day.as_data();
    let len = month_length(dt.year, dt.month);
    if d < len as u64 {
        return DateTime {
            month_day: MonthDay::from_data(d + 1),
            hour: Hour::from_data(0),
            minuter: Minuter::from_data(0),
            second: Second::from_data(0),
            ..*dt
        };
    }
    let nx = next_month(dt.year, dt.month);
    DateTime {
        year: nx.0,
        month: nx.1,
        month_day: MonthDay::from_data(1),
        week_day: dt.week_day,
        hour: Hour::from_data(0),
        minuter: Minuter::from_data(0),
        second: Second::from_data(0),
    }
}

} // verus!
