use dcap_verify::types::ByteReader;
use dcap_verify::ErrorCategory;

// `rest` is the trailing-bytes contract callers use to detect data after a
// parsed quote; it must return exactly the unconsumed tail.
#[test]
fn rest_returns_exactly_the_unconsumed_tail() {
    let data = [1u8, 2, 3, 4, 5];
    let mut r = ByteReader::new(&data);
    r.take(2, "head").expect("in bounds");
    assert_eq!(r.rest(), &[3, 4, 5]);
    r.take(3, "tail").expect("in bounds");
    assert_eq!(r.rest(), &[] as &[u8]);
}

#[test]
fn a_short_field_is_named_and_consumes_nothing() {
    let data = [1u8, 2, 3];
    let mut r = ByteReader::new(&data);
    let err = r.u32_le("field").unwrap_err();
    assert_eq!(err.category, ErrorCategory::QuoteParse);
    assert_eq!(err.detail, "field needs 4 bytes but only 3 remain");
    assert_eq!(r.rest(), &[1, 2, 3]);
}

#[test]
fn numbers_are_little_endian() {
    let data = [0x34u8, 0x12, 0x78, 0x56, 0x34, 0x92];
    let mut r = ByteReader::new(&data);
    assert_eq!(r.u16_le("a").unwrap(), 0x1234);
    assert_eq!(r.u32_le("b").unwrap(), 0x9234_5678);
}
