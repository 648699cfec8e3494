use xmlcodec::with::date_time;
use xmlcodec::with::date_time::Timestamp;
use xmlcodec::with::date_time::TimestampError;
use xmlcodec::with::date_time_option;

#[test]
fn test_timestamp_serialize() {
    let t = Timestamp { year: 1970, month: 3, day: 7, hour: 20, minute: 39, second: 40 };
    assert_eq!(date_time::serialize(&t), "1970-03-07 20:39:40");
    let t = Timestamp { year: 1, month: 1, day: 1, hour: 0, minute: 0, second: 0 };
    assert_eq!(date_time::serialize(&t), "0001-01-01 00:00:00");
    let t = Timestamp { year: 9999, month: 12, day: 31, hour: 23, minute: 59, second: 59 };
    assert_eq!(date_time::serialize(&t), "9999-12-31 23:59:59");
}

#[test]
fn test_timestamp_deserialize() {
    let t = Timestamp { year: 1970, month: 3, day: 7, hour: 20, minute: 39, second: 40 };
    assert_eq!(date_time::deserialize("1970-03-07 20:39:40").unwrap(), t);
    let t = Timestamp { year: 9999, month: 12, day: 31, hour: 23, minute: 59, second: 59 };
    assert_eq!(date_time::deserialize("9999-12-31 23:59:59").unwrap(), t);
}

#[test]
fn test_timestamp_decode_of_encode_returns_value() {
    let samples = [
        Timestamp { year: 1970, month: 3, day: 7, hour: 20, minute: 39, second: 40 },
        Timestamp { year: 2024, month: 2, day: 29, hour: 12, minute: 0, second: 1 },
        Timestamp { year: 1, month: 1, day: 1, hour: 0, minute: 0, second: 0 },
    ];
    for t in samples {
        assert_eq!(date_time::deserialize(&date_time::serialize(&t)).unwrap(), t);
    }
}

#[test]
fn test_timestamp_invalid_calendar_values() {
    assert_eq!(
        date_time::deserialize("1970-03-32 00:00:00").unwrap_err(),
        TimestampError::InvalidDateTime
    );
    assert_eq!(
        date_time::deserialize("1970-13-07 00:00:00").unwrap_err(),
        TimestampError::InvalidDateTime
    );
    assert_eq!(
        date_time::deserialize("1970-03-07 25:00:00").unwrap_err(),
        TimestampError::InvalidDateTime
    );
    assert_eq!(
        date_time::deserialize("1970-03-07 20:60:00").unwrap_err(),
        TimestampError::InvalidDateTime
    );
    assert_eq!(
        date_time::deserialize("1970-00-07 20:39:40").unwrap_err(),
        TimestampError::InvalidDateTime
    );
}

#[test]
fn test_timestamp_leap_years() {
    assert!(date_time::deserialize("2024-02-29 00:00:00").is_ok());
    assert!(date_time::deserialize("2000-02-29 00:00:00").is_ok());
    assert_eq!(
        date_time::deserialize("2023-02-29 00:00:00").unwrap_err(),
        TimestampError::InvalidDateTime
    );
    assert_eq!(
        date_time::deserialize("1900-02-29 00:00:00").unwrap_err(),
        TimestampError::InvalidDateTime
    );
}

#[test]
fn test_timestamp_pattern_errors() {
    assert_eq!(
        date_time::deserialize("1970-3-7 20:39:40").unwrap_err(),
        TimestampError::Pattern
    );
    assert_eq!(
        date_time::deserialize("1970-03-07T20:39:40").unwrap_err(),
        TimestampError::Pattern
    );
    assert_eq!(date_time::deserialize("").unwrap_err(), TimestampError::Pattern);
    assert_eq!(TimestampError::Pattern.message(), "expected YYYY-MM-DD HH:MM:SS");
    assert_eq!(
        TimestampError::InvalidDateTime.message(),
        "invalid calendar date or time of day"
    );
    assert_eq!(
        date_time::deserialize("1970-03-07 20:39:4").unwrap_err(),
        TimestampError::Pattern
    );
    assert_eq!(
        date_time::deserialize("1970-03-07 20:39:40 ").unwrap_err(),
        TimestampError::Pattern
    );
}

#[test]
fn test_timestamp_option_adapter() {
    let t = Timestamp { year: 1970, month: 3, day: 7, hour: 20, minute: 39, second: 40 };
    assert_eq!(date_time_option::serialize(&None), "");
    assert_eq!(date_time_option::serialize(&Some(t)), "1970-03-07 20:39:40");
    assert_eq!(date_time_option::deserialize("").unwrap(), None);
    assert_eq!(
        date_time_option::deserialize("1970-03-07 20:39:40").unwrap(),
        Some(t)
    );
    assert_eq!(
        date_time_option::deserialize("1970-03-32 00:00:00").unwrap_err(),
        date_time::deserialize("1970-03-32 00:00:00").unwrap_err()
    );
}
