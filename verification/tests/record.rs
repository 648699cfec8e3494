use xmlcodec::record::EventRecord;
use xmlcodec::with::date_time::Timestamp;
use xmlcodec::xml::DeError;
use xmlcodec::xml::FromXML;
use xmlcodec::xml::ToXML;

const EXPECTED_SERIALIZED_1: &'static str = r#"
        <TestData
            dateTime="1970-03-07 20:39:40"
            dateTimeOption="1970-03-07 20:39:40"
            duration="03:02:09"
            durationOption="03:02:09"
            boolAsInt="1"
        />
    "#;

const EXPECTED_SERIALIZED_2: &'static str = r#"
        <TestData
            dateTime="1970-03-07 20:39:40"
            dateTimeOption=""
            duration="03:02:09"
            durationOption=""
            boolAsInt="0"
        />
    "#;

fn expected_deserialized_1() -> EventRecord {
    let t = Timestamp { year: 1970, month: 3, day: 7, hour: 20, minute: 39, second: 40 };
    EventRecord {
        date_time: t,
        date_time_option: Some(t),
        duration: 3 * 3600 + 2 * 60 + 9,
        duration_option: Some(3 * 3600 + 2 * 60 + 9),
        bool_as_int: true,
    }
}

fn expected_deserialized_2() -> EventRecord {
    let t = Timestamp { year: 1970, month: 3, day: 7, hour: 20, minute: 39, second: 40 };
    EventRecord {
        date_time: t,
        date_time_option: None,
        duration: 3 * 3600 + 2 * 60 + 9,
        duration_option: None,
        bool_as_int: false,
    }
}

#[test]
fn with_test_from_xml() {
    let record = EventRecord::from_xml(EXPECTED_SERIALIZED_1).unwrap();
    assert_eq!(record, expected_deserialized_1());

    let record = EventRecord::from_xml(EXPECTED_SERIALIZED_2).unwrap();
    assert_eq!(record, expected_deserialized_2());
}

#[test]
fn with_test_to_xml() {
    let xml = expected_deserialized_1().to_xml(false).unwrap();
    assert_eq!(
        xml,
        "<EventRecord dateTime=\"1970-03-07 20:39:40\" dateTimeOption=\"1970-03-07 20:39:40\" duration=\"03:02:09\" durationOption=\"03:02:09\" boolAsInt=\"1\"/>"
    );

    let xml = expected_deserialized_2().to_xml(false).unwrap();
    assert_eq!(
        xml,
        "<EventRecord dateTime=\"1970-03-07 20:39:40\" dateTimeOption=\"\" duration=\"03:02:09\" durationOption=\"\" boolAsInt=\"0\"/>"
    );
}

#[test]
fn test_record_round_trip_present_options() {
    let record = expected_deserialized_1();
    for header in [false, true] {
        let xml = record.to_xml(header).unwrap();
        assert_eq!(EventRecord::from_xml(&xml).unwrap(), record);
    }
}

#[test]
fn test_record_round_trip_absent_options() {
    let record = expected_deserialized_2();
    for header in [false, true] {
        let xml = record.to_xml(header).unwrap();
        assert!(xml.contains("dateTimeOption=\"\""));
        assert!(xml.contains("durationOption=\"\""));
        assert!(xml.contains("boolAsInt=\"0\""));
        assert_eq!(EventRecord::from_xml(&xml).unwrap(), record);
    }
}

#[test]
fn test_record_declaration_header_line() {
    let xml = expected_deserialized_1().to_xml(true).unwrap();
    assert!(xml.starts_with("<?xml version=\"1.0\" encoding=\"UTF-8\"?>\n"));
    let bare = expected_deserialized_1().to_xml(false).unwrap();
    assert_eq!(xml, format!("<?xml version=\"1.0\" encoding=\"UTF-8\"?>\n{}", bare));
}

#[test]
fn test_record_missing_attribute() {
    let err = EventRecord::from_xml("<TestData dateTime=\"1970-03-07 20:39:40\"/>").unwrap_err();
    assert!(matches!(err, DeError::Record(_)));
}

#[test]
fn test_record_bad_field_value() {
    let xml = "<TestData dateTime=\"1970-03-07 20:39:40\" dateTimeOption=\"\" duration=\"3A:9B:7C\" durationOption=\"\" boolAsInt=\"0\"/>";
    let err = EventRecord::from_xml(xml).unwrap_err();
    match err {
        DeError::Record(m) => assert!(m.contains("invalid digit found in string")),
        other => panic!("unexpected error: {:?}", other),
    }
}

#[test]
fn test_record_malformed_document() {
    let err = EventRecord::from_xml("<TestData").unwrap_err();
    assert_eq!(err, DeError::Syntax);
    assert_eq!(err.message(), "malformed XML document");
}
