use timer_util::{configure_monthday, configure_weekday, ConfigOperator, DateTime, FromData};
use timer_util::Hour::{H10, H12, H15, H20, H5};
use timer_util::Minuter::{M0, M11, M15, M22, M30, M33, M44, M45, M55};
use timer_util::MonthDay::{D10, D15, D20, D24, D25, D30, D31, D4, D5};
use timer_util::Second::{S0, S15, S30, S45};
use timer_util::WeekDay::{W1, W2, W3, W4, W5};
use timer_util::{Hour, Hours, Minuter, Minuters, MonthDay, MonthDays, Second, Seconds, TimerConf,
    WeekDay, WeekDays};

fn datetime(year: i32, month: u32, day: u32, hour: u32, min: u32, second: u32) -> DateTime {
    let date = chrono::NaiveDate::from_ymd_opt(year, month, day).unwrap();
    let w = chrono::Datelike::weekday(&date).num_days_from_monday() as u64 + 1;
    DateTime {
        year,
        month: month as u8,
        month_day: MonthDay::from_data(day as u64),
        week_day: WeekDay::from_data(w),
        hour: Hour::from_data(hour as u64),
        minuter: Minuter::from_data(min as u64),
        second: Second::from_data(second as u64),
    }
}

#[test]
fn test_auto() {
    let conf = configure_weekday(WeekDays::default_array(&[W1, W3, W5]))
        .conf_month_days(
            MonthDays::default_range(D5, D10)
                .unwrap()
                .add_range(D15, D20)
                .unwrap()
                .add_range(D25, D30)
                .unwrap(),
        )
        .build_with_hours(Hours::default_array(&[H5, H10, H15, H20]))
        .build_with_minuter(Minuters::default_array(&[M15, M30, M45]))
        .build_with_second(Seconds::default_value(S0));

    let start = datetime(2022, 7, 4, 20, 15, 0);
    let end = datetime(2033, 8, 15, 12, 30, 45);

    let datetimes = conf.datetimes(start, end, false).unwrap();
    let mut from = datetime(2022, 7, 4, 20, 14, 59);
    let mut next = end;
    for dt in datetimes {
        next = conf.next_with_time(from);
        assert_eq!(dt, next, "{:?} - {:?}", from, next);
        from = dt;
    }
    assert_eq!(datetime(2033, 8, 15, 10, 45, 0), next, "{:?} - {:?}", end, next);

    let start = datetime(2022, 7, 4, 20, 15, 0);
    let end = datetime(2033, 8, 15, 15, 30, 0);
    let datetimes = conf.datetimes(start, end, false).unwrap();
    let mut from = datetime(2022, 7, 4, 20, 14, 59);
    let mut next = from;
    for dt in datetimes {
        next = conf.next_with_time(from);
        assert_eq!(dt, next, "{:?} - {:?}", from, next);
        from = dt;
    }
    assert_eq!(datetime(2033, 8, 15, 15, 15, 0), next, "{:?} - {:?}", end, next);
}

#[test]
fn test_auto_pre() {
    let conf = configure_weekday(WeekDays::default_array(&[W1, W3, W5]))
        .conf_month_days(
            MonthDays::default_range(D5, D10)
                .unwrap()
                .add_range(D15, D20)
                .unwrap()
                .add_range(D25, D30)
                .unwrap(),
        )
        .build_with_hours(Hours::default_array(&[H5, H10, H15, H20]))
        .build_with_minuter(Minuters::default_array(&[M15, M30, M45]))
        .build_with_second(Seconds::default_value(S0));

    let start = datetime(2022, 7, 4, 22, 17, 10);
    let end = datetime(2022, 7, 5, 12, 30, 45);

    let datetimes = conf.datetimes(start, end, false).unwrap();
    assert!(!datetimes.is_empty());
}

#[test]
fn test_to_month_days() {
    let month_days0 = WeekDays::default_array(&[W1, W3, W5, timer_util::WeekDay::W7])
        .to_month_days(W3);
    assert_eq!(
        month_days0.to_vec(),
        vec![1, 3, 5, 6, 8, 10, 12, 13, 15, 17, 19, 20, 22, 24, 26, 27, 29, 31]
    );

    let month_days1 = WeekDays::default_array(&[W1, W3, W5]).to_month_days(W1);
    assert_eq!(
        month_days1.to_vec(),
        vec![1, 3, 5, 8, 10, 12, 15, 17, 19, 22, 24, 26, 29, 31]
    );
    let month_days2 = month_days0.merge(&month_days1);
    assert_eq!(
        month_days2.to_vec(),
        vec![1, 3, 5, 6, 8, 10, 12, 13, 15, 17, 19, 20, 22, 24, 26, 27, 29, 31]
    );
}

#[test]
fn test_datetimes() {
    let some_datetimes = [
        datetime(2020, 5, 15, 10, 30, 30),
        datetime(2020, 5, 15, 10, 30, 45),
        datetime(2020, 5, 15, 10, 45, 15),
        datetime(2020, 5, 15, 10, 45, 30),
        datetime(2020, 5, 15, 10, 45, 45),
        datetime(2020, 5, 15, 15, 15, 15),
        datetime(2020, 5, 15, 15, 15, 30),
        datetime(2020, 5, 15, 15, 15, 45),
        datetime(2020, 5, 15, 15, 30, 15),
        datetime(2020, 5, 15, 15, 30, 30),
    ];
    let conf = configure_weekday(WeekDays::default_array(&[W5, W3]))
        .conf_month_days(MonthDays::default_array(&[D5, D15, D24]))
        .build_with_hours(Hours::default_array(&[H5, H10, H15]))
        .build_with_minuter(Minuters::default_array(&[M15, M30, M45]))
        .build_with_second(Seconds::default_array(&[S15, S30, S45]));
    let datetimes = conf
        .datetimes(
            datetime(2020, 5, 15, 10, 30, 17),
            datetime(2020, 5, 15, 15, 30, 30),
            true,
        )
        .unwrap();

    assert_eq!(datetimes.as_slice(), &some_datetimes[..]);
}

fn compare(conf: &TimerConf, times: &[DateTime]) {
    let len = times.len() - 1;
    let mut index = 0;
    loop {
        assert_eq!(conf.next_with_time(times[index]), times[index + 1]);
        index += 1;
        if index == len {
            break;
        }
    }
}

#[test]
fn test() {
    let conf = configure_weekday(WeekDays::default_array(&[W5, W3]))
        .conf_month_days(MonthDays::default_array(&[D5, D15, D24]))
        .build_with_hours(Hours::default_array(&[H5, H10, H15]))
        .build_with_minuter(Minuters::default_array(&[M15, M30, M45]))
        .build_with_second(Seconds::default_array(&[S15, S30, S45]));

    compare(
        &conf,
        &[
            datetime(2020, 5, 15, 10, 30, 30),
            datetime(2020, 5, 15, 10, 30, 45),
            datetime(2020, 5, 15, 10, 45, 15),
            datetime(2020, 5, 15, 10, 45, 30),
            datetime(2020, 5, 15, 10, 45, 45),
            datetime(2020, 5, 15, 15, 15, 15),
            datetime(2020, 5, 15, 15, 15, 30),
            datetime(2020, 5, 15, 15, 15, 45),
            datetime(2020, 5, 15, 15, 30, 15),
            datetime(2020, 5, 15, 15, 30, 30),
        ],
    );
    // -------------------------------
    let dt0 = DateTime {
        year: 2022,
        month: 5,
        month_day: D20,
        week_day: W5,
        hour: H15,
        minuter: M45,
        second: S45,
    };
    {
        let dist: DateTime = conf.next_with_time(dt0);
        let mut dt0_dist = dt0.clone();
        dt0_dist.week_day = W2;
        dt0_dist.month_day = D24;
        dt0_dist.second = S15;
        dt0_dist.minuter = M15;
        dt0_dist.hour = H5;
        assert_eq!(dist, dt0_dist);
    }
    // -------------------------------
    let conf = configure_weekday(WeekDays::default_array(&[W5, W3]))
        .conf_month_days(MonthDays::default_array(&[D5, D15, D31]))
        .build_with_hours(Hours::default_array(&[H5, H10, H15]))
        .build_with_minuter(Minuters::default_array(&[M15, M30, M45]))
        .build_with_second(Seconds::default_array(&[S15, S30, S45]));
    let dt0 = DateTime {
        year: 2022,
        month: 4,
        month_day: timer_util::MonthDay::D29,
        week_day: W5,
        hour: H15,
        minuter: M45,
        second: S45,
    };
    {
        let dist: DateTime = conf.next_with_time(dt0);
        let mut dt0_dist = dt0.clone();
        dt0_dist.week_day = W3;
        dt0_dist.month_day = D4;
        dt0_dist.second = S15;
        dt0_dist.minuter = M15;
        dt0_dist.hour = H5;
        dt0_dist.year = 2022;
        dt0_dist.month = 5;
        assert_eq!(dist, dt0_dist);
    }
}

#[test]
fn test_year() {
    let conf = configure_monthday(MonthDays::default_value(D31))
        .build_with_hours(Hours::default_array(&[H12]))
        .build_with_minuter(Minuters::default_array(&[M30]))
        .build_with_second(Seconds::default_array(&[S0]));
    let dt0 = DateTime {
        year: 2021,
        month: 12,
        month_day: D31,
        week_day: W5,
        hour: H12,
        minuter: M30,
        second: S30,
    };
    {
        let dist: DateTime = conf.next_with_time(dt0);
        let mut dt0_dist = dist.clone();
        dt0_dist.second = S0;
        dt0_dist.minuter = M30;
        dt0_dist.hour = H12;
        dt0_dist.week_day = W1;
        dt0_dist.month_day = D31;
        assert!(dist == dt0_dist, "{:?}", dist);
        assert!(dist.year == 2022, "{:?}", dist);
        assert!(dist.month == 1, "{:?}", dist);
    }
}

#[test]
fn test_month() {
    let conf = configure_monthday(MonthDays::default_value(D31))
        .build_with_hours(Hours::default_array(&[H12]))
        .build_with_minuter(Minuters::default_array(&[M30]))
        .build_with_second(Seconds::default_array(&[S0]));
    let dt0 = DateTime {
        year: 2022,
        month: 1,
        month_day: D31,
        week_day: W5,
        hour: H12,
        minuter: M30,
        second: S30,
    };
    {
        let dist: DateTime = conf.next_with_time(dt0);
        let mut dt0_dist = dist.clone();
        dt0_dist.second = S0;
        dt0_dist.minuter = M30;
        dt0_dist.hour = H12;
        dt0_dist.week_day = W4;
        dt0_dist.month_day = D31;
        assert!(dist == dt0_dist, "{:?}", dist);
        assert!(dist.year == 2022, "{:?}", dist);
        assert!(dist.month == 3, "{:?}", dist);
    }
}

#[test]
fn test_every() {
    let minuters = Minuters::every(11);
    assert_eq!(minuters, Minuters::default_array(&[M0, M11, M22, M33, M44, M55]));
    let minuters = Minuters::every(0);
    assert_eq!(minuters, Minuters::_default());
    let minuters = Minuters::every(30);
    assert_eq!(minuters, Minuters::default_array(&[M0, M30]));
    let minuters = Minuters::every(31);
    assert_eq!(minuters, Minuters::default_array(&[M0, timer_util::Minuter::M31]));
    let minuters = Minuters::every(60);
    assert_eq!(minuters, Minuters::default_array(&[M0]));

    let minuters = Minuters::every(500);
    assert_eq!(minuters, Minuters::default_array(&[M0]));
}
