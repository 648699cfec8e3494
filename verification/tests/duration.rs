use xmlcodec::with::duration;
use xmlcodec::with::duration::DurationError;
use xmlcodec::with::duration::format_duration_as_time_string;
use xmlcodec::with::duration::parse_duration_from_time_string;
use xmlcodec::with::duration_option;
use xmlcodec::text::IntError;

#[test]
fn test_parse_duration_from_time_string() {
    assert_eq!(
        parse_duration_from_time_string("03:42:07").unwrap(),
        3 * 3600 + 42 * 60 + 7
    );
    assert_eq!(parse_duration_from_time_string("3:2:4").unwrap(), 3 * 3600 + 2 * 60 + 4);
    assert_eq!(
        parse_duration_from_time_string("33:92:76").unwrap(),
        33 * 3600 + 92 * 60 + 76
    );
    assert_eq!(
        parse_duration_from_time_string("3A:9B:7C").unwrap_err().message(),
        "Failed to parse hours: invalid digit found in string"
    );
    assert_eq!(
        parse_duration_from_time_string("3:9B:7C").unwrap_err().message(),
        "Failed to parse minutes: invalid digit found in string"
    );
    assert_eq!(
        parse_duration_from_time_string("3:9:7C").unwrap_err().message(),
        "Failed to parse seconds: invalid digit found in string"
    );
}

#[test]
fn test_format_duration_as_time_string() {
    assert_eq!(
        format_duration_as_time_string(&(3 * 3600 + 42 * 60 + 7)),
        String::from("03:42:07")
    );
    assert_eq!(
        format_duration_as_time_string(&(33 * 3600 + 92 * 60 + 76)),
        String::from("34:33:16")
    );
}

#[test]
fn test_duration_decode_is_liberal_encode_normalizes() {
    let liberal = parse_duration_from_time_string("33:92:76").unwrap();
    let canonical = parse_duration_from_time_string("34:33:16").unwrap();
    assert_eq!(liberal, 33 * 3600 + 92 * 60 + 76);
    assert_eq!(liberal, canonical);
    assert_eq!(format_duration_as_time_string(&liberal), "34:33:16");
}

#[test]
fn test_duration_decode_of_encode_returns_total() {
    for total in [0i64, 1, 59, 60, 3599, 3600, 124396, 86_400_000] {
        let text = format_duration_as_time_string(&total);
        assert_eq!(parse_duration_from_time_string(&text).unwrap(), total);
    }
}

#[test]
fn test_duration_signed_parts() {
    assert_eq!(parse_duration_from_time_string("0:-5:-3").unwrap(), -303);
    assert_eq!(parse_duration_from_time_string("+1:+2:+3").unwrap(), 3723);
    assert_eq!(parse_duration_from_time_string("-1:0:0").unwrap(), -3600);
}

#[test]
fn test_duration_error_variants() {
    assert_eq!(
        parse_duration_from_time_string("1:2").unwrap_err(),
        DurationError::ExpectedThreeParts
    );
    assert_eq!(
        parse_duration_from_time_string("1:2:3:4").unwrap_err(),
        DurationError::ExpectedThreeParts
    );
    assert_eq!(
        parse_duration_from_time_string("").unwrap_err(),
        DurationError::ExpectedThreeParts
    );
    assert_eq!(
        parse_duration_from_time_string("::").unwrap_err().message(),
        "Failed to parse hours: cannot parse integer from empty string"
    );
}

#[test]
fn test_duration_part_errors() {
    assert_eq!(
        parse_duration_from_time_string("::").unwrap_err(),
        DurationError::Hours(IntError::Empty)
    );
    assert_eq!(
        parse_duration_from_time_string("1::3").unwrap_err(),
        DurationError::Minutes(IntError::Empty)
    );
    assert_eq!(
        parse_duration_from_time_string("99999999999999999999:0:0").unwrap_err(),
        DurationError::Hours(IntError::PosOverflow)
    );
    assert_eq!(
        parse_duration_from_time_string("-99999999999999999999:0:0").unwrap_err(),
        DurationError::Hours(IntError::NegOverflow)
    );
    assert_eq!(
        parse_duration_from_time_string("9223372036854775807:0:1").unwrap_err(),
        DurationError::TotalOutOfRange
    );
}

#[test]
fn test_duration_option_adapter() {
    assert_eq!(duration_option::serialize(&None), "");
    assert_eq!(
        duration_option::serialize(&Some(3 * 3600 + 4 * 60 + 5)),
        "03:04:05"
    );
    assert_eq!(duration_option::deserialize("").unwrap(), None);
    assert_eq!(
        duration_option::deserialize("03:04:05").unwrap(),
        Some(3 * 3600 + 4 * 60 + 5)
    );
    assert_eq!(
        duration_option::deserialize("3A:9B:7C").unwrap_err(),
        duration::deserialize("3A:9B:7C").unwrap_err()
    );
}
