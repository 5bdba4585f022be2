use uuid7_rs::parse::{
    bytes_to_hilo, parse_uuid_bytes, parse_uuid_fields, parse_uuid_int, uuid_to_bytes,
    uuid_to_bytes_le, uuid_to_bytes_le_ptr, LongExport,
};
use uuid7_rs::python::exceptions::{ExceptionKind, UuidError};
use uuid7_rs::python::py_3_14_plus::uuid_int_from_parts;
use uuid7_rs::uuid::dunder::{__hash__, richcompare, PY_EQ, PY_GE, PY_GT, PY_LE, PY_LT, PY_NE};
use uuid7_rs::uuid::property::{bytes, bytes_le, fields, get_clock_seq, int_digits};
use uuid7_rs::uuid::uuid_obj::UUIDObject;

const HI: u64 = 0x1234_5678_1234_5678;
const LO: u64 = 0x1234_5678_1234_5678;
const VALUE: u128 = 0x1234_5678_1234_5678_1234_5678_1234_5678;

fn digits_of(v: u128) -> Vec<u32> {
    let mut v = v;
    let mut d = Vec::new();
    while v != 0 {
        d.push((v & 0x3FFF_FFFF) as u32);
        v >>= 30;
    }
    d
}

#[test]
fn bytes_big_endian() {
    let u = UUIDObject { hi: HI, lo: LO };
    assert_eq!(bytes(&u), VALUE.to_be_bytes());
    let mut out = [0xAAu8; 18];
    uuid_to_bytes(HI, LO, &mut out);
    assert_eq!(&out[..16], &VALUE.to_be_bytes());
    assert_eq!(&out[16..], &[0xAA, 0xAA]);
    let (mut hi, mut lo) = (0u64, 0u64);
    bytes_to_hilo(&out, &mut hi, &mut lo);
    assert_eq!((hi, lo), (HI, LO));
}

#[test]
fn bytes_le_as_python() {
    let u = UUIDObject { hi: HI, lo: LO };
    let expected: [u8; 16] = [
        0x78, 0x56, 0x34, 0x12, 0x34, 0x12, 0x78, 0x56, 0x12, 0x34, 0x56, 0x78, 0x12, 0x34, 0x56,
        0x78,
    ];
    assert_eq!(bytes_le(&u), expected);
    let mut back = [0u8; 16];
    uuid_to_bytes_le(&expected, &mut back);
    assert_eq!(back, VALUE.to_be_bytes());
    let mut dst = [9u8; 17];
    uuid_to_bytes_le_ptr(&back, &mut dst);
    assert_eq!(&dst[..16], &expected);
    assert_eq!(dst[16], 9);
}

#[test]
fn parse_bytes_and_bytes_le() {
    let be = VALUE.to_be_bytes();
    let (mut hi, mut lo) = (0u64, 0u64);
    assert_eq!(parse_uuid_bytes(&be, false, &mut hi, &mut lo), Ok(()));
    assert_eq!((hi, lo), (HI, LO));
    let le = bytes_le(&UUIDObject { hi: 0x0011_2233_4455_6677, lo: 0x8899_aabb_ccdd_eeff });
    assert_eq!(parse_uuid_bytes(&le, true, &mut hi, &mut lo), Ok(()));
    assert_eq!((hi, lo), (0x0011_2233_4455_6677, 0x8899_aabb_ccdd_eeff));
}

#[test]
fn parse_bytes_wrong_length() {
    let (mut hi, mut lo) = (5u64, 6u64);
    let e = parse_uuid_bytes(&[0u8; 15], false, &mut hi, &mut lo).unwrap_err();
    assert_eq!(e, UuidError::BytesLength);
    assert_eq!(e.message(), "bytes is not a 16-char string");
    let e = parse_uuid_bytes(&[0u8; 17], true, &mut hi, &mut lo).unwrap_err();
    assert_eq!(e, UuidError::BytesLeLength);
    assert_eq!(e.message(), "bytes_le is not a 16-char string");
    assert_eq!(e.kind(), ExceptionKind::ValueError);
    assert_eq!((hi, lo), (5, 6));
}

#[test]
fn fields_as_python() {
    let u = UUIDObject { hi: HI, lo: LO };
    assert_eq!(fields(&u), (0x12345678, 0x1234, 0x5678, 0x12, 0x34, 0x5678_1234_5678));
    assert_eq!(get_clock_seq(&u), 0x1234);
    assert_eq!(u.time(), 0x1234_5678_1234);
    assert_eq!(u.time_low(), 0x12345678);
    assert_eq!(u.time_mid(), 0x1234);
    assert_eq!(u.time_hi_version(), 0x5678);
    assert_eq!(u.clock_seq_hi_variant(), 0x12);
    assert_eq!(u.clock_seq_low(), 0x34);
    assert_eq!(u.node(), 0x5678_1234_5678);
    let v = UUIDObject { hi: 0, lo: 0xC0FF_0000_0000_0000 };
    assert_eq!(v.clock_seq(), 0x00FF);
}

#[test]
fn parse_fields_roundtrip_and_errors() {
    let (mut hi, mut lo) = (0u64, 0u64);
    let parts = [Some(0x12345678), Some(0x1234), Some(0x5678), Some(0x12), Some(0x34), Some(0x5678_1234_5678)];
    assert_eq!(parse_uuid_fields(&parts, &mut hi, &mut lo), Ok(()));
    assert_eq!((hi, lo), (HI, LO));
    let (mut hi, mut lo) = (1u64, 2u64);
    assert_eq!(parse_uuid_fields(&parts[..5], &mut hi, &mut lo), Err(UuidError::FieldsNotSixTuple));
    let bad = [Some(0x1_0000_0000), None, Some(0), Some(0), Some(0), Some(0)];
    assert_eq!(parse_uuid_fields(&bad, &mut hi, &mut lo), Err(UuidError::FieldOutOfRange));
    let bad = [Some(0), None, Some(0x1_0000), Some(0), Some(0), Some(0)];
    assert_eq!(parse_uuid_fields(&bad, &mut hi, &mut lo), Err(UuidError::FieldsNotIntegers));
    assert_eq!(UuidError::FieldsNotIntegers.kind(), ExceptionKind::TypeError);
    let bad = [Some(0), Some(0), Some(0), Some(0), Some(0x100), Some(0)];
    assert_eq!(parse_uuid_fields(&bad, &mut hi, &mut lo), Err(UuidError::FieldOutOfRange));
    assert_eq!((hi, lo), (1, 2));
}

#[test]
fn int_digits_and_parse_int() {
    let u = UUIDObject { hi: HI, lo: LO };
    let d = int_digits(&u);
    let mut v: u128 = 0;
    for k in (0..5).rev() {
        v = (v << 30) | d[k] as u128;
    }
    assert_eq!(v, VALUE);
    assert_eq!(uuid_int_from_parts(HI, LO), d);
    let (mut hi, mut lo) = (0u64, 0u64);
    let export = LongExport { value: 0, negative: false, digits: Some(d.to_vec()) };
    assert_eq!(parse_uuid_int(&export, &mut hi, &mut lo), Ok(()));
    assert_eq!((hi, lo), (HI, LO));
    let max = LongExport { value: 0, negative: false, digits: Some(digits_of(u128::MAX)) };
    assert_eq!(parse_uuid_int(&max, &mut hi, &mut lo), Ok(()));
    assert_eq!((hi, lo), (u64::MAX, u64::MAX));
    let small = LongExport { value: 42, negative: false, digits: None };
    assert_eq!(parse_uuid_int(&small, &mut hi, &mut lo), Ok(()));
    assert_eq!((hi, lo), (0, 42));
}

#[test]
fn parse_int_out_of_range() {
    let (mut hi, mut lo) = (3u64, 4u64);
    let neg = LongExport { value: -1, negative: true, digits: None };
    assert_eq!(parse_uuid_int(&neg, &mut hi, &mut lo), Err(UuidError::IntOutOfRange));
    let mut big = digits_of(u128::MAX);
    big[4] = 0x100;
    let too_big = LongExport { value: 0, negative: false, digits: Some(big) };
    assert_eq!(parse_uuid_int(&too_big, &mut hi, &mut lo), Err(UuidError::IntOutOfRange));
    let six = LongExport { value: 0, negative: false, digits: Some(vec![0, 0, 0, 0, 0, 1]) };
    assert_eq!(parse_uuid_int(&six, &mut hi, &mut lo), Err(UuidError::IntOutOfRange));
    let negative_digits = LongExport { value: 0, negative: true, digits: Some(vec![1]) };
    assert_eq!(parse_uuid_int(&negative_digits, &mut hi, &mut lo), Err(UuidError::IntOutOfRange));
    assert_eq!(UuidError::IntOutOfRange.message(), "int is out of range (need a 128-bit value)");
    assert_eq!((hi, lo), (3, 4));
}

#[test]
fn hash_as_defined() {
    let u = UUIDObject { hi: HI, lo: LO };
    let expected = (HI ^ (HI >> 32) ^ LO ^ (LO >> 32)) as i64;
    assert_eq!(__hash__(&u), expected);
    let m = UUIDObject { hi: 0xFFFF_FFFF_0000_0000, lo: 0 };
    assert_eq!((m.hi ^ (m.hi >> 32)) as i64, -1);
    assert_eq!(__hash__(&m), -2);
}

#[test]
fn richcompare_orders_by_value() {
    let a = UUIDObject { hi: 1, lo: u64::MAX };
    let b = UUIDObject { hi: 2, lo: 0 };
    assert_eq!(richcompare(&a, &b, PY_LT), Some(true));
    assert_eq!(richcompare(&a, &b, PY_LE), Some(true));
    assert_eq!(richcompare(&a, &b, PY_EQ), Some(false));
    assert_eq!(richcompare(&a, &b, PY_NE), Some(true));
    assert_eq!(richcompare(&a, &b, PY_GT), Some(false));
    assert_eq!(richcompare(&a, &b, PY_GE), Some(false));
    assert_eq!(richcompare(&a, &a, PY_EQ), Some(true));
    assert_eq!(richcompare(&a, &a, PY_GE), Some(true));
    assert_eq!(richcompare(&a, &b, 6), None);
    assert_eq!(richcompare(&a, &b, -1), None);
}
