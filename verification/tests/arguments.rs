use rand::rngs::StdRng;
use uuid7_rs::parse::{parse_u64_arg, LongExport, U64Param};
use uuid7_rs::python::args::{same_text, ArgValue};
use uuid7_rs::python::exceptions::{ExceptionKind, UuidError};
use uuid7_rs::rng::GeneratorState;
use uuid7_rs::unix::time::SystemClock;
use uuid7_rs::uuid::class::{
    uuid_from_source, uuid_new_from_args, uuid_type_new, BytesArg, SourceArg, UuidSource,
};
use uuid7_rs::uuid::uuid_obj::UUIDObject;
use uuid7_rs::uuid::uuid7::{
    bind_uuid7_args, bind_uuid7_request, parse_mode, uuid7, uuid7_int, Uuid7Binding, Uuid7Request,
};

fn none() -> ArgValue {
    ArgValue { is_none: true, text: None, uint: None }
}

fn text(s: &str) -> ArgValue {
    ArgValue { is_none: false, text: Some(s.to_string()), uint: None }
}

fn uint(v: u64) -> ArgValue {
    ArgValue { is_none: false, text: None, uint: Some(v) }
}

fn other() -> ArgValue {
    ArgValue { is_none: false, text: None, uint: None }
}

#[test]
fn same_text_compares_characters() {
    assert!(same_text("bytes", "bytes"));
    assert!(!same_text("bytes", "bytes_le"));
    assert!(!same_text("Hex", "hex"));
    assert!(same_text("", ""));
    assert!(same_text("é", "é"));
}

#[test]
fn constructor_picks_the_one_source() {
    assert_eq!(uuid_type_new(1, true, &[]), Ok(UuidSource::Hex));
    assert_eq!(uuid_type_new(0, false, &[("hex", true)]), Ok(UuidSource::Hex));
    assert_eq!(uuid_type_new(0, false, &[("bytes", true)]), Ok(UuidSource::Bytes));
    assert_eq!(uuid_type_new(0, false, &[("bytes_le", true)]), Ok(UuidSource::BytesLe));
    assert_eq!(uuid_type_new(0, false, &[("fields", true)]), Ok(UuidSource::Fields));
    assert_eq!(uuid_type_new(0, false, &[("int", true)]), Ok(UuidSource::Int));
    assert_eq!(uuid_type_new(1, false, &[("bytes", true)]), Ok(UuidSource::Bytes));
    assert_eq!(uuid_type_new(1, true, &[("bytes", false), ("int", false)]), Ok(UuidSource::Hex));
}

#[test]
fn constructor_errors() {
    assert_eq!(uuid_type_new(2, true, &[]), Err(UuidError::UuidTooManyPositional));
    assert_eq!(uuid_type_new(2, true, &[("bogus", true)]), Err(UuidError::UuidTooManyPositional));
    assert_eq!(uuid_type_new(1, false, &[("hex", true)]), Err(UuidError::HexByNameAndPosition));
    assert_eq!(uuid_type_new(0, false, &[("bogus", true)]), Err(UuidError::UuidUnexpectedKeyword(0)));
    assert_eq!(
        uuid_type_new(0, false, &[("bytes", true), ("bogus", false)]),
        Err(UuidError::UuidUnexpectedKeyword(1))
    );
    assert_eq!(uuid_type_new(0, false, &[]), Err(UuidError::NoSingleSource));
    assert_eq!(uuid_type_new(1, false, &[]), Err(UuidError::NoSingleSource));
    assert_eq!(
        uuid_type_new(0, false, &[("bytes", true), ("int", true)]),
        Err(UuidError::NoSingleSource)
    );
    assert_eq!(uuid_type_new(1, true, &[("fields", true)]), Err(UuidError::NoSingleSource));
    assert_eq!(UuidError::NoSingleSource.kind(), ExceptionKind::TypeError);
    assert_eq!(
        UuidError::NoSingleSource.message(),
        "one of the hex, bytes, bytes_le, fields, or int arguments must be given"
    );
    assert_eq!(UuidError::HexByNameAndPosition.message(), "argument for UUID() given by name ('hex') and position");
    assert_eq!(UuidError::UuidUnexpectedKeyword(3).message(), "UUID.__init__() got an unexpected keyword argument");
    assert_eq!(UuidError::HexNotStr.kind(), ExceptionKind::TypeError);
    assert_eq!(UuidError::BytesNotBytes.message(), "bytes is not a 16-char bytes object");
}

#[test]
fn uuid7_binds_positions_then_keywords() {
    let none_bound = Uuid7Binding { timestamp: None, nanos: None, mode: None };
    assert_eq!(bind_uuid7_args(0, &[]), Ok(none_bound));
    assert_eq!(
        bind_uuid7_args(3, &[]),
        Ok(Uuid7Binding { timestamp: Some(0), nanos: Some(1), mode: Some(2) })
    );
    assert_eq!(
        bind_uuid7_args(2, &["mode"]),
        Ok(Uuid7Binding { timestamp: Some(0), nanos: Some(1), mode: Some(2) })
    );
    assert_eq!(
        bind_uuid7_args(1, &["timestamp"]),
        Ok(Uuid7Binding { timestamp: Some(1), nanos: None, mode: None })
    );
    assert_eq!(
        bind_uuid7_args(0, &["nanos", "timestamp"]),
        Ok(Uuid7Binding { timestamp: Some(1), nanos: Some(0), mode: None })
    );
    assert_eq!(bind_uuid7_args(4, &[]), Err(UuidError::Uuid7TooManyPositional));
    assert_eq!(bind_uuid7_args(0, &["mode", "seed"]), Err(UuidError::Uuid7UnexpectedKeyword(1)));
    assert_eq!(
        UuidError::Uuid7TooManyPositional.message(),
        "uuid7() takes at most 3 positional arguments"
    );
}

#[test]
fn mode_and_integer_arguments() {
    assert_eq!(parse_mode(None), Ok(false));
    assert_eq!(parse_mode(Some(&none())), Ok(false));
    assert_eq!(parse_mode(Some(&text("fast"))), Ok(false));
    assert_eq!(parse_mode(Some(&text("secure"))), Ok(true));
    assert_eq!(parse_mode(Some(&text("Secure"))), Err(UuidError::ModeUnknown));
    assert_eq!(parse_mode(Some(&uint(1))), Err(UuidError::ModeNotStr));
    assert_eq!(UuidError::ModeUnknown.kind(), ExceptionKind::ValueError);
    assert_eq!(UuidError::ModeNotStr.kind(), ExceptionKind::TypeError);
    assert_eq!(parse_u64_arg(None, U64Param::Timestamp), Ok(None));
    assert_eq!(parse_u64_arg(Some(&none()), U64Param::Nanos), Ok(None));
    assert_eq!(parse_u64_arg(Some(&uint(42)), U64Param::Nanos), Ok(Some(42)));
    assert_eq!(parse_u64_arg(Some(&text("42")), U64Param::Timestamp), Err(UuidError::TimestampNotInt));
    assert_eq!(parse_u64_arg(Some(&other()), U64Param::Nanos), Err(UuidError::NanosNotInt));
    assert_eq!(
        UuidError::TimestampNotInt.message(),
        "timestamp must be a non-negative int or None"
    );
}

#[test]
fn uuid7_requests() {
    assert_eq!(bind_uuid7_request(&[], &[]), Ok(Uuid7Request::Clock));
    assert_eq!(
        bind_uuid7_request(&[none()], &[]),
        Ok(Uuid7Request::Parts { timestamp: None, nanos: None, secure: false })
    );
    assert_eq!(
        bind_uuid7_request(&[uint(5), text("secure")], &["mode"]),
        Ok(Uuid7Request::Parts { timestamp: Some(5), nanos: None, secure: true })
    );
    assert_eq!(
        bind_uuid7_request(&[uint(5), uint(7), text("fast")], &[]),
        Ok(Uuid7Request::Parts { timestamp: Some(5), nanos: Some(7), secure: false })
    );
    assert_eq!(
        bind_uuid7_request(&[text("x"), text("bad")], &["mode"]),
        Err(UuidError::ModeUnknown)
    );
    assert_eq!(
        bind_uuid7_request(&[text("x"), other()], &[]),
        Err(UuidError::TimestampNotInt)
    );
    assert_eq!(
        bind_uuid7_request(&[uint(1), uint(2), none(), none()], &[]),
        Err(UuidError::Uuid7TooManyPositional)
    );
}

#[test]
fn uuid7_calls() {
    let mut state = GeneratorState::new();
    let mut rng: StdRng = rand::make_rng();
    let (hi, lo) = uuid7(&mut state, &mut rng, &mut SystemClock, &[], &[]).unwrap();
    assert_eq!((hi >> 12) & 0xF, 7);
    assert_eq!(lo >> 62, 2);
    assert_eq!(hi >> 16, state.last_ms);
    let (hi, _) = uuid7(&mut state, &mut rng, &mut SystemClock, &[uint(1_700_000_000), uint(5_000_000)], &["nanos"]).unwrap();
    assert_eq!(hi >> 16, 1_700_000_000_005);
    assert_eq!(hi & 0xFFF, 5_000_000 & 0xFFF);
    assert_eq!(
        uuid7(&mut state, &mut rng, &mut SystemClock, &[uint(1), uint(1_000_000_000)], &[]),
        Err(UuidError::NanosOutOfRange)
    );
    assert_eq!(uuid7(&mut state, &mut rng, &mut SystemClock, &[none()], &["when"]), Err(UuidError::Uuid7UnexpectedKeyword(0)));
    let digits = uuid7_int(&mut state, &mut rng, &mut SystemClock, &[uint(1_700_000_000)], &[]).unwrap();
    let value = digits.iter().rev().fold(0u128, |acc, &d| (acc << 30) | d as u128);
    assert_eq!((value >> 80) as u64, 1_700_000_000_000);
    assert_eq!((value >> 76) & 0xF, 7);
    assert_eq!(uuid7_int(&mut state, &mut rng, &mut SystemClock, &[other()], &[]), Err(UuidError::TimestampNotInt));
}

#[test]
fn uuid7_calls_increase() {
    let mut state = GeneratorState::new();
    let mut rng: StdRng = rand::make_rng();
    let value = |w: (u64, u64)| ((w.0 as u128) << 64) | w.1 as u128;
    let mut prev = value(uuid7(&mut state, &mut rng, &mut SystemClock, &[], &[]).unwrap());
    for i in 0..3_000 {
        let w = match i % 3 {
            0 => uuid7(&mut state, &mut rng, &mut SystemClock, &[], &[]),
            1 => uuid7(&mut state, &mut rng, &mut SystemClock, &[text("secure")], &["mode"]),
            _ => uuid7(&mut state, &mut rng, &mut SystemClock, &[none(), none()], &[]),
        }
        .unwrap();
        assert!(value(w) > prev);
        prev = value(w);
    }
    let (last_ms, counter) = (state.last_ms, state.counter42);
    uuid7(&mut state, &mut rng, &mut SystemClock, &[uint(1_000)], &["timestamp"]).unwrap();
    assert_eq!((state.last_ms, state.counter42), (last_ms, counter));
    assert!(value(uuid7(&mut state, &mut rng, &mut SystemClock, &[], &[]).unwrap()) > prev);
}

fn export(x: u128) -> LongExport {
    let mut digits = Vec::new();
    let mut v = x;
    while v > 0 {
        digits.push((v & 0x3FFF_FFFF) as u32);
        v >>= 30;
    }
    LongExport { value: 0, negative: false, digits: Some(digits) }
}

#[test]
fn constructor_reads_the_uuid() {
    let text = b"01234567-89ab-cdef-fedc-ba9876543210".to_vec();
    let u = uuid_new_from_args(1, true, &[], &SourceArg::Hex(Some(text))).unwrap();
    assert_eq!(u, UUIDObject { hi: 0x0123_4567_89ab_cdef, lo: 0xfedc_ba98_7654_3210 });
    assert_eq!(uuid_new_from_args(1, true, &[], &SourceArg::Hex(None)), Err(UuidError::HexNotStr));
    assert_eq!(
        uuid_new_from_args(1, true, &[], &SourceArg::Hex(Some(b"0123".to_vec()))),
        Err(UuidError::BadlyFormedHex)
    );
    assert_eq!(
        uuid_new_from_args(2, true, &[], &SourceArg::Hex(None)),
        Err(UuidError::UuidTooManyPositional)
    );
    assert_eq!(
        uuid_new_from_args(1, true, &[], &SourceArg::Int(Some(export(1)))),
        Err(UuidError::NoSingleSource)
    );
}

#[test]
fn constructor_spellings_agree() {
    let x: u128 = 0x0123_4567_89ab_cdef_fedc_ba98_7654_3210;
    let want = UUIDObject { hi: (x >> 64) as u64, lo: x as u64 };
    let b = x.to_be_bytes().to_vec();
    let mut le = b.clone();
    le[0..4].reverse();
    le[4..6].reverse();
    le[6..8].reverse();
    let hex = format!("{x:032x}").into_bytes();
    let fields = vec![
        Some((x >> 96) as u64),
        Some(((x >> 80) & 0xFFFF) as u64),
        Some(((x >> 64) & 0xFFFF) as u64),
        Some(((x >> 56) & 0xFF) as u64),
        Some(((x >> 48) & 0xFF) as u64),
        Some((x & 0xFFFF_FFFF_FFFF) as u64),
    ];
    assert_eq!(uuid_new_from_args(0, false, &[("hex", true)], &SourceArg::Hex(Some(hex))), Ok(want));
    assert_eq!(
        uuid_new_from_args(0, false, &[("bytes", true)], &SourceArg::Bytes(BytesArg::Data(b))),
        Ok(want)
    );
    assert_eq!(
        uuid_new_from_args(0, false, &[("bytes_le", true)], &SourceArg::BytesLe(BytesArg::Data(le))),
        Ok(want)
    );
    assert_eq!(
        uuid_new_from_args(0, false, &[("fields", true)], &SourceArg::Fields(Some(fields))),
        Ok(want)
    );
    assert_eq!(uuid_new_from_args(0, false, &[("int", true)], &SourceArg::Int(Some(export(x)))), Ok(want));
    // `UUID(None, int=x)`: a None argument counts as absent.
    assert_eq!(
        uuid_new_from_args(1, false, &[("int", true), ("bytes", false)], &SourceArg::Int(Some(export(x)))),
        Ok(want)
    );
    assert_eq!(
        uuid_from_source(&SourceArg::Bytes(BytesArg::Other(16))),
        Err(UuidError::BytesNotBytes)
    );
    assert_eq!(
        uuid_from_source(&SourceArg::BytesLe(BytesArg::Other(3))),
        Err(UuidError::BytesLeLength)
    );
    assert_eq!(uuid_from_source(&SourceArg::Fields(None)), Err(UuidError::FieldsNotSequence));
    assert_eq!(uuid_from_source(&SourceArg::Int(None)), Err(UuidError::IntNotInt));
}

#[test]
fn constructor_refuses_wrapped_text() {
    let urn = b"urn:uuid:01234567-89ab-cdef-fedc-ba9876543210".to_vec();
    assert_eq!(uuid_new_from_args(1, true, &[], &SourceArg::Hex(Some(urn))), Err(UuidError::BadlyFormedHex));
    let braced = b"{01234567-89ab-cdef-fedc-ba9876543210}".to_vec();
    assert_eq!(uuid_new_from_args(1, true, &[], &SourceArg::Hex(Some(braced))), Err(UuidError::BadlyFormedHex));
}
