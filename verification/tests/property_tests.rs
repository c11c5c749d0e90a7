use timer_util::Hour::{H0, H12, H15, H23, H5};
use timer_util::Minuter::{M0, M15, M59};
use timer_util::MonthDay::{D1, D10, D31, D5};
use timer_util::Second::{S0, S59};
use timer_util::WeekDay::{W3, W5, W7};
use timer_util::{
    configure_monthday, configure_weekday, ConfError, ConfigOperator, DateTime, FromData, Hour,
    Hours, Minuter, Minuters, MonthDay, MonthDays, Second, Seconds, TryFromData, WeekDay, WeekDays,
};

fn dt(year: i32, month: u32, day: u32, hour: u32, min: u32, second: u32) -> DateTime {
    let date = chrono::NaiveDate::from_ymd_opt(year, month, day).unwrap();
    let w = chrono::Datelike::weekday(&date).num_days_from_monday() as u64 + 1;
    DateTime {
        year,
        month: month as u8,
        month_day: MonthDay::from_data(day as u64),
        week_day: WeekDay::from_data(w),
        hour: Hour::from_data(hour as u64),
        minuter: Minuter::from_data(min as u64),
        second: Second::from_data(second as u64),
    }
}

#[test]
fn next_is_strictly_later() {
    let conf = configure_weekday(WeekDays::default_array(&[W3, W5]))
        .build_with_hours(Hours::default_array(&[H5, H12]))
        .build_with_minuter(Minuters::default_array(&[M0, M15]))
        .build_with_second(Seconds::default_array(&[S0]));
    let starts = [
        dt(2020, 5, 15, 10, 30, 17),
        dt(2021, 12, 31, 23, 59, 59),
        dt(2022, 2, 28, 0, 0, 0),
        dt(2024, 2, 29, 12, 0, 0),
    ];
    for start in starts {
        let r = conf.next_with_time(start);
        assert!(start.le(&r));
        assert_ne!(start, r);
        // stepping again advances strictly once more
        let r2 = conf.next_with_time(r);
        assert!(r.le(&r2));
        assert_ne!(r, r2);
    }
}

#[test]
fn chained_steps_equal_enumeration() {
    let conf = configure_monthday(MonthDays::default_array(&[D5, D10]))
        .build_with_hours(Hours::default_array(&[H5]))
        .build_with_minuter(Minuters::default_array(&[M15]))
        .build_with_second(Seconds::default_array(&[S0]));
    let start = dt(2022, 3, 1, 0, 0, 0);
    let end = dt(2022, 6, 30, 23, 59, 59);
    let run = conf.datetimes(start, end, true).unwrap();
    assert_eq!(run.len(), 8);
    let mut cur = dt(2022, 2, 28, 23, 59, 59);
    for entry in &run {
        let next = conf.next_with_time(cur);
        assert_eq!(next, *entry);
        cur = next;
    }
}

#[test]
fn result_fields_are_contained() {
    let conf = configure_weekday(WeekDays::default_array(&[W3, W5]))
        .conf_month_days(MonthDays::default_array(&[D5, D10]))
        .build_with_hours(Hours::default_array(&[H5, H23]))
        .build_with_minuter(Minuters::default_array(&[M0, M59]))
        .build_with_second(Seconds::default_array(&[S0, S59]));
    let mut cur = dt(2022, 1, 1, 0, 0, 0);
    for _ in 0..25 {
        let r = conf.next_with_time(cur);
        // the rule itself accepts its own result
        assert!(conf.matches_datetime(&r));
        // and each field lies in its configured set
        assert!(matches!(r.hour, Hour::H5 | Hour::H23));
        assert!(matches!(r.minuter, Minuter::M0 | Minuter::M59));
        assert!(matches!(r.second, Second::S0 | Second::S59));
        let day_ok = matches!(r.month_day, MonthDay::D5 | MonthDay::D10)
            || matches!(r.week_day, WeekDay::W3 | WeekDay::W5);
        assert!(day_ok);
        cur = r;
    }
}

#[test]
fn monthday_weekday_union() {
    // disjoint components: month-day 10 never falls on a Wednesday here
    let conf = configure_weekday(WeekDays::default_array(&[W3]))
        .conf_month_days(MonthDays::default_array(&[D10]))
        .build_with_hours(Hours::default_array(&[H12]))
        .build_with_minuter(Minuters::default_array(&[M0]))
        .build_with_second(Seconds::default_array(&[S0]));
    let run = conf
        .datetimes(dt(2022, 5, 1, 0, 0, 0), dt(2022, 5, 31, 23, 59, 59), true)
        .unwrap();
    // May 2022: Wednesdays are 4, 11, 18, 25; month-day 10 is a Tuesday
    let days: Vec<u64> = run
        .iter()
        .map(|d| match d.month_day {
            MonthDay::D4 => 4,
            MonthDay::D10 => 10,
            MonthDay::D11 => 11,
            MonthDay::D18 => 18,
            MonthDay::D25 => 25,
            _ => 0,
        })
        .collect();
    assert_eq!(days, vec![4, 10, 11, 18, 25]);
    // both groups appear: membership in either component suffices
    assert!(conf.matches_datetime(&dt(2022, 5, 10, 12, 0, 0)));
    assert!(conf.matches_datetime(&dt(2022, 5, 4, 12, 0, 0)));
    assert!(!conf.matches_datetime(&dt(2022, 5, 5, 12, 0, 0)));
}

#[test]
fn day31_skips_short_months() {
    let conf = configure_monthday(MonthDays::default_value(D31))
        .build_with_hours(Hours::default_array(&[H12]))
        .build_with_minuter(Minuters::default_array(&[M0]))
        .build_with_second(Seconds::default_array(&[S0]));
    let run = conf
        .datetimes(dt(2022, 1, 1, 0, 0, 0), dt(2022, 12, 31, 23, 59, 59), true)
        .unwrap();
    let months: Vec<u8> = run.iter().map(|d| d.month).collect();
    assert_eq!(months, vec![1, 3, 5, 7, 8, 10, 12]);
    for d in &run {
        assert!(matches!(d.month_day, MonthDay::D31));
    }
}

#[test]
fn rollover_at_year_end() {
    let conf = configure_monthday(MonthDays::default_all())
        .build_with_hours(Hours::default_all())
        .build_with_minuter(Minuters::default_all())
        .build_with_second(Seconds::default_all());
    let r = conf.next_with_time(dt(2022, 12, 31, 23, 59, 59));
    assert_eq!(r, dt(2023, 1, 1, 0, 0, 0));
    let r = conf.next_with_time(dt(2020, 2, 28, 23, 59, 59));
    assert_eq!(r, dt(2020, 2, 29, 0, 0, 0));
    let r = conf.next_with_time(dt(2021, 2, 28, 23, 59, 59));
    assert_eq!(r, dt(2021, 3, 1, 0, 0, 0));
}

#[test]
fn weekday_rule_follows_calendar() {
    // 2020-05-15 was a Friday; a Friday-only rule accepts it and rejects the
    // surrounding days
    let conf = configure_weekday(WeekDays::default_value(W5))
        .build_with_hours(Hours::default_array(&[H0]))
        .build_with_minuter(Minuters::default_array(&[M0]))
        .build_with_second(Seconds::default_array(&[S0]));
    assert!(conf.matches_datetime(&dt(2020, 5, 15, 0, 0, 0)));
    assert!(!conf.matches_datetime(&dt(2020, 5, 14, 0, 0, 0)));
    assert!(!conf.matches_datetime(&dt(2020, 5, 16, 0, 0, 0)));
    let r = conf.next_with_time(dt(2020, 5, 15, 0, 0, 0));
    assert_eq!(r, dt(2020, 5, 22, 0, 0, 0));
}

#[test]
fn range_errors() {
    assert_eq!(
        MonthDays::default_range(D10, D5).unwrap_err(),
        ConfError::InvalidRange
    );
    assert_eq!(
        MonthDays::default_range(D5, D5).unwrap_err(),
        ConfError::InvalidRange
    );
    assert!(MonthDays::default_range(D5, D10).is_ok());
    let conf = configure_monthday(MonthDays::default_value(D1))
        .build_with_hours(Hours::default_array(&[H0]))
        .build_with_minuter(Minuters::default_array(&[M0]))
        .build_with_second(Seconds::default_array(&[S0]));
    // a closed range may be a single instant; an open one of the same bounds
    // is empty and refused
    let single = dt(2022, 3, 1, 0, 0, 0);
    assert!(conf.datetimes(single, single, true).is_ok());
    assert_eq!(
        conf.datetimes(single, single, false).unwrap_err(),
        ConfError::InvalidRange
    );
    assert_eq!(
        conf.datetimes(dt(2022, 3, 2, 0, 0, 0), single, true).unwrap_err(),
        ConfError::InvalidRange
    );
}

#[test]
fn data_conversions() {
    assert_eq!(Hour::try_from_data(24).unwrap_err(), ConfError::OutOfRange);
    assert_eq!(Hour::try_from_data(23).unwrap(), H23);
    assert_eq!(WeekDay::try_from_data(0).unwrap_err(), ConfError::OutOfRange);
    assert_eq!(WeekDay::try_from_data(8).unwrap_err(), ConfError::OutOfRange);
    assert_eq!(WeekDay::try_from_data(7).unwrap(), W7);
    assert_eq!(MonthDay::try_from_data(32).unwrap_err(), ConfError::OutOfRange);
    assert_eq!(Minuter::try_from_data(60).unwrap_err(), ConfError::OutOfRange);
    assert_eq!(Second::try_from_data(59).unwrap(), S59);
}

#[test]
fn set_operations() {
    let a = Hours::default_array(&[H0, H5]);
    let b = Hours::default_array(&[H5, H12]);
    assert_eq!(a.merge(&b).to_vec(), vec![0, 5, 12]);
    assert_eq!(a.intersection(&b).to_vec(), vec![5]);
    assert!(a.contain(H5));
    assert!(!a.contain(H12));
    assert_eq!(a.next(H0), Some(H5));
    assert_eq!(a.next(H5), None);
    assert_eq!(b.min_val(), H5);
    assert_eq!(Hours::default_all().to_vec().len(), 24);
    assert_eq!(Hours::default_all_by_max(H5).to_vec(), vec![0, 1, 2, 3, 4, 5]);
    assert_eq!(Seconds::default_value(S59).to_vec(), vec![59]);
}

#[test]
fn weekday_only_rolls_to_next_selected_weekday() {
    // only Wednesdays and Fridays; from a Friday whose hours are exhausted,
    // the match falls on the following Wednesday at the minima
    let conf = configure_weekday(WeekDays::default_array(&[W3, W5]))
        .build_with_hours(Hours::default_array(&[H5, timer_util::Hour::H10, H15]))
        .build_with_minuter(Minuters::default_array(&[M15, timer_util::Minuter::M30,
            timer_util::Minuter::M45]))
        .build_with_second(Seconds::default_array(&[timer_util::Second::S15,
            timer_util::Second::S30, timer_util::Second::S45]));
    // 2022-05-20 is a Friday; 15:45:45 is the day's last selected instant
    let r = conf.next_with_time(dt(2022, 5, 20, 15, 45, 45));
    assert_eq!(r, dt(2022, 5, 25, 5, 15, 15));
}

#[test]
fn seconds_until_next_fire() {
    let conf = configure_weekday(WeekDays::default_array(&[W5, W3]))
        .conf_month_days(MonthDays::default_array(&[D5, timer_util::MonthDay::D15,
            timer_util::MonthDay::D24]))
        .build_with_hours(Hours::default_array(&[H5, timer_util::Hour::H10, H15]))
        .build_with_minuter(Minuters::default_array(&[M15, timer_util::Minuter::M30,
            timer_util::Minuter::M45]))
        .build_with_second(Seconds::default_array(&[timer_util::Second::S15,
            timer_util::Second::S30, timer_util::Second::S45]));
    // next match after 2020-05-15 10:30:17 is 10:30:30 on the same day
    assert_eq!(conf.next(dt(2020, 5, 15, 10, 30, 17)), 13);

    let conf = configure_monthday(MonthDays::default_value(D31))
        .build_with_hours(Hours::default_array(&[H12]))
        .build_with_minuter(Minuters::default_array(&[timer_util::Minuter::M30]))
        .build_with_second(Seconds::default_array(&[S0]));
    // next match after 2021-12-31 12:30:30 is 2022-01-31 12:30:00: 31 days
    // later, 30 seconds earlier in the day
    assert_eq!(conf.next(dt(2021, 12, 31, 12, 30, 30)), 31 * 86400 - 30);
}
