use xmlcodec::default::IsDefault;
use xmlcodec::with::date_time::Timestamp;

#[test]
fn test_is_default() {
    assert!(false.is_default());
    assert!(!true.is_default());
    assert!(0i64.is_default());
    assert!(!5i64.is_default());
    assert!(0u64.is_default());
    assert!(!1u64.is_default());
    assert!(Option::<i64>::None.is_default());
    assert!(!Some(0i64).is_default());
    assert!(Option::<Timestamp>::None.is_default());
    let zero = Timestamp { year: 0, month: 0, day: 0, hour: 0, minute: 0, second: 0 };
    assert!(zero.is_default());
    let t = Timestamp { year: 1970, month: 3, day: 7, hour: 20, minute: 39, second: 40 };
    assert!(!t.is_default());
    assert!(!Some(t).is_default());
}
