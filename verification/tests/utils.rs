use earthquakes::utils::{
    format_time, is_utc_time, seconds_of, MAX_EPOCH_DAY, MAX_UTC_SECONDS, MIN_EPOCH_DAY, MIN_UTC_SECONDS,
};

#[test]
fn format_time_writes_date_and_time_of_day() {
    assert_eq!(format_time(0).unwrap(), "1970-01-01T00:00:00");
    assert_eq!(format_time(1388534400).unwrap(), "2014-01-01T00:00:00");
    assert_eq!(format_time(1388534400 + 3600 + 62).unwrap(), "2014-01-01T01:01:02");
    assert_eq!(format_time(-1).unwrap(), "1969-12-31T23:59:59");
}

#[test]
fn format_time_agrees_with_chrono() {
    for seconds in [0i64, 1, 59, 86_399, 86_400, 951_782_400, 1_000_000_000, 1_700_000_000] {
        let expected = chrono::DateTime::from_timestamp(seconds, 0)
            .unwrap()
            .format("%Y-%m-%dT%H:%M:%S")
            .to_string();
        assert_eq!(format_time(seconds).unwrap(), expected);
    }
}

#[test]
fn format_time_knows_the_ends_of_the_calendar() {
    assert!(format_time(MIN_UTC_SECONDS).is_some());
    assert!(format_time(MIN_UTC_SECONDS - 1).is_none());
    assert!(format_time(MAX_UTC_SECONDS).is_some());
    assert!(format_time(MAX_UTC_SECONDS + 1).is_none());
    assert!(format_time(i64::MIN).is_none());
    assert!(format_time(i64::MAX).is_none());
}

#[test]
fn the_ends_of_the_calendar_are_chronos() {
    assert_eq!(chrono::DateTime::<chrono::Utc>::MIN_UTC.timestamp(), MIN_UTC_SECONDS);
    assert_eq!(chrono::DateTime::<chrono::Utc>::MAX_UTC.timestamp(), MAX_UTC_SECONDS);
    assert_eq!(chrono::NaiveDate::from_epoch_days(MIN_EPOCH_DAY), Some(chrono::NaiveDate::MIN));
    assert_eq!(chrono::NaiveDate::from_epoch_days(MAX_EPOCH_DAY), Some(chrono::NaiveDate::MAX));
    assert_eq!(chrono::NaiveDate::from_epoch_days(MIN_EPOCH_DAY - 1), None);
    assert_eq!(chrono::NaiveDate::from_epoch_days(MAX_EPOCH_DAY + 1), None);
}

#[test]
fn seconds_of_rounds_towards_zero() {
    assert_eq!(seconds_of(0), 0);
    assert_eq!(seconds_of(999), 0);
    assert_eq!(seconds_of(1000), 1);
    assert_eq!(seconds_of(1_000_000_060_000), 1_000_000_060);
    assert_eq!(seconds_of(-1), 0);
    assert_eq!(seconds_of(-999), 0);
    assert_eq!(seconds_of(-1000), -1);
    assert_eq!(seconds_of(-1001), -1);
    assert_eq!(seconds_of(i64::MAX), i64::MAX / 1000);
    assert_eq!(seconds_of(i64::MIN), i64::MIN / 1000);
}

#[test]
fn is_utc_time_agrees_with_chrono() {
    for seconds in [
        i64::MIN,
        MIN_UTC_SECONDS - 1,
        MIN_UTC_SECONDS,
        -1,
        0,
        1_000_000_000,
        MAX_UTC_SECONDS,
        MAX_UTC_SECONDS + 1,
        i64::MAX,
    ] {
        assert_eq!(is_utc_time(seconds), chrono::DateTime::from_timestamp(seconds, 0).is_some());
        assert_eq!(is_utc_time(seconds), format_time(seconds).is_some());
    }
}
