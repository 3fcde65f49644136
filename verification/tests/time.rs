use chrono::{Datelike, NaiveDate, Timelike};
use tasklist::time::{Date, Timestamp};

#[test]
fn unix_seconds_count_from_1970() {
    assert_eq!(Timestamp::new(719_163, 0, 0).unix_seconds(), 0);
    assert_eq!(Timestamp::new(719_163, 1, 999_999_999).unix_seconds(), 1);
    assert_eq!(Timestamp::new(719_164, 0, 0).unix_seconds(), 86_400);
    assert_eq!(Timestamp::new(738_886, 0, 0).unix_seconds(), 1_704_067_200);
    assert_eq!(Timestamp::new(719_162, 86_399, 0).unix_seconds(), 0);
    assert_eq!(Timestamp::new(i32::MIN, 0, 0).unix_seconds(), 0);
    assert_eq!(
        Timestamp::new(i32::MAX, u32::MAX, 0).unix_seconds(),
        (i32::MAX as u64 - 719_163) * 86_400 + u32::MAX as u64
    );
}

#[test]
fn unix_seconds_agree_with_the_calendar() {
    let at = NaiveDate::from_ymd_opt(2024, 1, 1).unwrap().and_hms_opt(12, 30, 15).unwrap();
    let ts = Timestamp::new(at.num_days_from_ce(), at.num_seconds_from_midnight(), at.nanosecond());

    assert_eq!(ts.day, 738_886);
    assert_eq!(ts.unix_seconds() as i64, at.and_utc().timestamp());
}

#[test]
fn timestamps_are_ordered_by_day_then_second_then_nanosecond() {
    let a = Timestamp::new(10, 5, 5);

    assert!(!a.is_before(&a));
    assert!(a.is_before(&Timestamp::new(10, 5, 6)));
    assert!(a.is_before(&Timestamp::new(10, 6, 0)));
    assert!(a.is_before(&Timestamp::new(11, 0, 0)));
    assert!(!a.is_before(&Timestamp::new(10, 5, 4)));
    assert!(!a.is_before(&Timestamp::new(10, 4, 9)));
    assert!(!a.is_before(&Timestamp::new(9, 9, 9)));
    assert!(Timestamp::new(-1, 0, 0).is_before(&Timestamp::new(0, 0, 0)));
}

#[test]
fn the_date_is_the_day() {
    assert_eq!(Timestamp::new(738_886, 86_399, 5).date(), Date { day: 738_886 });
    assert_ne!(Timestamp::new(738_886, 0, 0).date(), Date { day: 738_887 });
}
