use uuid7_rs::hex::helpers;
use uuid7_rs::hex::hex;
use uuid7_rs::hex::table::{build_hex_pairs, build_hex_words, hex_nibble};
use uuid7_rs::parse::parse_uuid;
use uuid7_rs::python::exceptions::{ExceptionKind, UuidError};
use uuid7_rs::uuid::dunder::{__repr__, __str__};
use uuid7_rs::uuid::property::{hex as hex_attr, urn};
use uuid7_rs::uuid::uuid_obj::UUIDObject;

const HI: u64 = 0x1234_5678_9abc_def0;
const LO: u64 = 0x0fed_cba9_8765_4321;
const DASHED: &str = "12345678-9abc-def0-0fed-cba987654321";
const HEX32: &str = "123456789abcdef00fedcba987654321";

fn parse_both(text: &str) -> (i32, u64, u64, i32, u64, u64) {
    let (mut h1, mut l1) = (7u64, 9u64);
    let r1 = helpers::parse_uuid_hex_str(text.as_bytes(), &mut h1, &mut l1);
    let (mut h2, mut l2) = (7u64, 9u64);
    let r2 = hex::parse_uuid_hex_str(text.as_bytes(), &mut h2, &mut l2);
    (r1, h1, l1, r2, h2, l2)
}

fn assert_parses(text: &str, hi: u64, lo: u64) {
    assert_eq!(parse_both(text), (0, hi, lo, 0, hi, lo), "{}", text);
}

fn assert_rejects(text: &str) {
    assert_eq!(parse_both(text), (-1, 7, 9, -1, 7, 9), "{}", text);
}

/// A text only the prefix-stripping reader takes: the bare reader refuses it.
fn assert_wrapped(text: &str, hi: u64, lo: u64) {
    assert_eq!(parse_both(text), (-1, 7, 9, 0, hi, lo), "{}", text);
}

fn hex_only(text: &str) -> (i32, u64, u64) {
    let (mut h, mut l) = (7u64, 9u64);
    let r = hex::parse_uuid_hex_str(text.as_bytes(), &mut h, &mut l);
    (r, h, l)
}

#[test]
fn fmt_dashed_writes_canonical_form() {
    let mut buf = [b'#'; 40];
    helpers::fmt_dashed(HI, LO, &mut buf);
    assert_eq!(&buf[..36], DASHED.as_bytes());
    assert_eq!(&buf[36..], b"####");
    let mut buf2 = [b'#'; 40];
    hex::fmt_dashed(HI, LO, &mut buf2);
    assert_eq!(buf, buf2);
}

#[test]
fn fmt_hex32_writes_lowercase_digits() {
    let mut buf = [b'#'; 33];
    helpers::fmt_hex32(HI, LO, &mut buf);
    assert_eq!(&buf[..32], HEX32.as_bytes());
    assert_eq!(buf[32], b'#');
    let mut buf2 = [b'#'; 33];
    hex::fmt_hex32(HI, LO, &mut buf2);
    assert_eq!(buf, buf2);
}

#[test]
fn fmt_nil_and_max() {
    let mut buf = [0u8; 36];
    helpers::fmt_dashed(0, 0, &mut buf);
    assert_eq!(&buf, b"00000000-0000-0000-0000-000000000000");
    helpers::fmt_dashed(u64::MAX, u64::MAX, &mut buf);
    assert_eq!(&buf, b"ffffffff-ffff-ffff-ffff-ffffffffffff");
}

#[test]
fn parse_accepts_python_forms() {
    assert_parses(DASHED, HI, LO);
    assert_parses(HEX32, HI, LO);
    assert_parses("12345678-9ABC-DEF0-0FED-CBA987654321", HI, LO);
    assert_wrapped("{12345678-9abc-def0-0fed-cba987654321}", HI, LO);
    assert_wrapped("{123456789abcdef00fedcba987654321}", HI, LO);
    assert_wrapped("urn:uuid:12345678-9abc-def0-0fed-cba987654321", HI, LO);
    assert_wrapped("URN:UUID:123456789ABCDEF00FEDCBA987654321", HI, LO);
    // 32 and 36 characters in all, with the prefix or the braces inside them.
    assert_rejects("urn:uuid:23456789abcdef00fedcba9");
    assert_rejects("{23456789abcdef00fedcba98765432}");
    assert_rejects("{2345678-9abc-def0-0fed-cba9876543}");
    assert_eq!(hex_only("urn:uuid:{12345678-9abc-def0-0fed-cba987654321}"), (0, HI, LO));
}

#[test]
fn parse_rejects_malformed_text() {
    assert_rejects("");
    assert_rejects("12345678-9abc-def0-0fed-cba98765432");
    assert_rejects("12345678-9abc-def0-0fed-cba9876543210");
    assert_rejects("12345678_9abc-def0-0fed-cba987654321");
    assert_rejects("12345678-9abc-def0-0fed-cba98765432g");
    assert_rejects("123456789abcdef00fedcba98765432x");
    assert_rejects("12345678-9abc-def00fed-cba9876543210");
    assert_eq!(hex_only("urn:uuid:"), (-1, 7, 9));
    assert_rejects("urn:uid:12345678-9abc-def0-0fed-cba987654321");
    assert_rejects("{12345678-9abc-def0-0fed-cba987654321");
    assert_rejects("12345678-9abc-def0-0fed-cba987654321}");
    assert_rejects("+2345678-9abc-def0-0fed-cba987654321");
}

#[test]
fn parse_uuid_reports_badly_formed_hex() {
    let (mut hi, mut lo) = (1u64, 2u64);
    let err = parse_uuid(b"not a uuid", &mut hi, &mut lo).unwrap_err();
    assert_eq!(err, UuidError::BadlyFormedHex);
    assert_eq!(err.kind(), ExceptionKind::ValueError);
    assert_eq!(err.message(), "badly formed hexadecimal UUID string");
    assert_eq!((hi, lo), (1, 2));
    assert!(parse_uuid(DASHED.as_bytes(), &mut hi, &mut lo).is_ok());
    assert_eq!((hi, lo), (HI, LO));
}

#[test]
fn str_roundtrip_on_samples() {
    let samples = [
        (0u64, 0u64),
        (u64::MAX, u64::MAX),
        (HI, LO),
        (0x0190_0000_0000_7abc, 0x8123_4567_89ab_cdef),
    ];
    for (hi, lo) in samples {
        let mut buf = [0u8; 36];
        helpers::fmt_dashed(hi, lo, &mut buf);
        let (mut h, mut l) = (0u64, 0u64);
        assert_eq!(helpers::parse_uuid_hex_str(&buf, &mut h, &mut l), 0);
        assert_eq!((h, l), (hi, lo));
        let mut buf32 = [0u8; 32];
        hex::fmt_hex32(hi, lo, &mut buf32);
        assert_eq!(hex::parse_uuid_hex_str(&buf32, &mut h, &mut l), 0);
        assert_eq!((h, l), (hi, lo));
    }
}

#[test]
fn str_repr_urn_hex_attributes() {
    let u = UUIDObject { hi: HI, lo: LO };
    let mut s = [0u8; 36];
    __str__(&u, &mut s);
    assert_eq!(&s, DASHED.as_bytes());
    let mut r = [0u8; 44];
    __repr__(&u, &mut r);
    assert_eq!(&r[..], format!("UUID('{}')", DASHED).as_bytes());
    let mut n = [0u8; 45];
    urn(&u, &mut n);
    assert_eq!(&n[..], format!("urn:uuid:{}", DASHED).as_bytes());
    let mut h = [0u8; 32];
    hex_attr(&u, &mut h);
    assert_eq!(&h, HEX32.as_bytes());
    let (mut hi, mut lo) = (0u64, 0u64);
    assert_eq!(helpers::parse_uuid_hex_str(&n, &mut hi, &mut lo), -1);
    assert_eq!(hex::parse_uuid_hex_str(&n, &mut hi, &mut lo), 0);
    assert_eq!((hi, lo), (HI, LO));
}

#[test]
fn hex_pair_writes_two_digits() {
    let mut buf = [0u8; 4];
    hex::hex_pair(&mut buf, 1, 0xa7);
    assert_eq!(buf, [0, b'a', b'7', 0]);
}

#[test]
fn hex_nibble_values() {
    assert_eq!(hex_nibble(b'0'), 0);
    assert_eq!(hex_nibble(b'9'), 9);
    assert_eq!(hex_nibble(b'a'), 10);
    assert_eq!(hex_nibble(b'F'), 15);
    assert_eq!(hex_nibble(b'g'), -1);
    assert_eq!(hex_nibble(b'/'), -1);
}

#[test]
fn hex_tables() {
    let words = build_hex_words();
    assert_eq!(words.len(), 65536);
    assert_eq!(words[0x1a2f].to_le_bytes(), *b"1a2f");
    assert_eq!(words[0xffff].to_le_bytes(), *b"ffff");
    assert_eq!(helpers::hex_word(0xbeef), u32::from_le_bytes(*b"beef") as u64);
    assert_eq!(helpers::hex_words(0x0123_4567_89ab_cdef), [
        u32::from_le_bytes(*b"0123") as u64,
        u32::from_le_bytes(*b"4567") as u64,
        u32::from_le_bytes(*b"89ab") as u64,
        u32::from_le_bytes(*b"cdef") as u64,
    ]);
    let pairs = build_hex_pairs();
    assert_eq!(pairs.len(), 65536);
    assert_eq!(pairs[(b'a' as usize) | ((b'7' as usize) << 8)], 0xa7);
    assert_eq!(pairs[(b'F' as usize) | ((b'f' as usize) << 8)], 0xff);
    assert_eq!(pairs[(b'x' as usize) | ((b'0' as usize) << 8)], -1);
}

#[test]
fn parse_hex32_reads_prefix() {
    let (mut hi, mut lo) = (0u64, 0u64);
    let text = format!("{}trailing", HEX32);
    assert_eq!(hex::parse_hex32(text.as_bytes(), &mut hi, &mut lo), 0);
    assert_eq!((hi, lo), (HI, LO));
    assert_eq!(hex::parse_hex32(b"123456789abcdef00fedcba98765432z", &mut hi, &mut lo), -1);
    assert_eq!((hi, lo), (HI, LO));
}

#[test]
fn urn_prefix_ignores_case() {
    assert!(helpers::is_urn_uuid(b"URN:Uuid:"));
    assert!(helpers::is_urn_uuid(b"urn:uuid:0123"));
    assert!(!helpers::is_urn_uuid(b"urn;uuid:"));
    assert!(!helpers::is_urn_uuid(b"urn:uuid-"));
}
