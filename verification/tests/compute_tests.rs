use timer_util::compute::{next_month, month_length, TimeUnit};
use timer_util::Second::{S10, S30, S45, S5, S55, S57};
use timer_util::{ConfigOperator, Seconds};

#[test]
fn test_time_unit_second() {
    let conf = Seconds::default_array(&[S5, S30, S55]);
    {
        let mut unit = TimeUnit::new(S10, conf.clone());
        assert!(!unit.is_match());
        assert_eq!(unit.next_val(), Some(S30));
        assert_eq!(unit.min_val(), S5);
        unit.val_mut(S30);
        assert_eq!(unit.val(), 30);
    }
    {
        let unit = TimeUnit::new(S30, conf.clone());
        assert!(unit.is_match());
        assert_eq!(unit.next_val(), Some(S55));
        assert_eq!(unit.min_val(), S5);
    }
    {
        let unit = TimeUnit::new(S45, conf.clone());
        assert!(!unit.is_match());
        assert_eq!(unit.next_val(), Some(S55));
        assert_eq!(unit.min_val(), S5);
    }
    {
        let unit = TimeUnit::new(S55, conf.clone());
        assert!(unit.is_match());
        assert_eq!(unit.next_val(), None);
        assert_eq!(unit.min_val(), S5);
    }
    {
        let unit = TimeUnit::new(S57, conf.clone());
        assert!(!unit.is_match());
        assert_eq!(unit.next_val(), None);
        assert_eq!(unit.min_val(), S5);
    }
}

#[test]
fn test_next_month_rollover() {
    assert_eq!(next_month(2021, 12), (2022, 1));
    assert_eq!(next_month(2022, 1), (2022, 2));
    assert_eq!(next_month(2022, 11), (2022, 12));
}

#[test]
fn test_month_length_values() {
    assert_eq!(month_length(2022, 1), 31);
    assert_eq!(month_length(2022, 2), 28);
    assert_eq!(month_length(2020, 2), 29);
    assert_eq!(month_length(2100, 2), 28);
    assert_eq!(month_length(2000, 2), 29);
    assert_eq!(month_length(2022, 4), 30);
    assert_eq!(month_length(2022, 12), 31);
}
