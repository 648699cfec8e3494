use xmlcodec::with::bool_as_int;

#[test]
fn test_bool_as_int_serialize() {
    assert_eq!(bool_as_int::serialize(&true), "1");
    assert_eq!(bool_as_int::serialize(&false), "0");
}

#[test]
fn test_bool_as_int_deserialize() {
    assert_eq!(bool_as_int::deserialize("1").unwrap(), true);
    assert_eq!(bool_as_int::deserialize("0").unwrap(), false);
    let err = bool_as_int::deserialize("2").unwrap_err();
    assert_eq!(err.text, "2");
    assert_eq!(err.message(), "Invalid boolean value: 2");
    assert!(bool_as_int::deserialize("").is_err());
    assert!(bool_as_int::deserialize("10").is_err());
    assert!(bool_as_int::deserialize("true").is_err());
}
