use rand::rngs::StdRng;
use uuid7_rs::python::exceptions::{ExceptionKind, UuidError};
use uuid7_rs::rng::{
    build_timestamp_ms, build_uuid7_monotonic, build_words, ensure_seeded, fill_random, reseed, w1_mix, Fast,
    GeneratorState, Secure, W1Rng, WordRng, C, MAX_TS_MS, MAX_TS_S,
};
use uuid7_rs::unix::time::{now_ms, platform_seeded, SystemClock};
use uuid7_rs::uuid::uuid7::{uuid7_parts, MAX_NANOS};
use uuid7_rs::uuid::uuid_obj::UUIDObject;

fn is_v7(hi: u64, lo: u64) -> bool {
    (hi >> 12) & 0xF == 7 && lo >> 62 == 2
}

#[test]
fn build_words_layout() {
    let (hi, lo) = build_words(0x0190_1234_5678, 0xabc, 0x1234_5678_9abc_def0 & 0x3FFF_FFFF_FFFF_FFFF);
    assert_eq!(hi, 0x0190_1234_5678_7abc);
    assert_eq!(lo, 0x9234_5678_9abc_def0);
    assert!(is_v7(hi, lo));
    assert_eq!(UUIDObject { hi, lo }.time(), 0x0190_1234_5678);
}

#[test]
fn w1_mix_value() {
    let t = (3u128 << 64 | 5) * 7;
    let a = (3u64 << 32) | 1;
    let b = 1u64 << 40;
    let p = a as u128 * b as u128;
    assert_eq!(w1_mix(a, b), ((p >> 64) as u64) ^ (p as u64));
    assert_eq!(w1_mix(0, 12345), 0);
    assert_eq!(w1_mix(1, 12345), 12345);
    assert_eq!(w1_mix(u64::MAX, u64::MAX), 0xFFFF_FFFF_FFFF_FFFE ^ 1);
    let _ = t;
}

#[test]
fn w1_rng_steps() {
    let mut rng = W1Rng::new(10);
    let w = rng.next_word();
    let s = 10u64.wrapping_add(C);
    assert_eq!(rng.state, s);
    assert_eq!(w, w1_mix(s, s ^ C));
}

#[test]
fn fast_generator_is_monotonic() {
    let mut state = GeneratorState::new();
    let (mut hi, mut lo) = (0u64, 0u64);
    assert_eq!(Fast::build_uuid7(&mut state, &mut SystemClock, &mut hi, &mut lo), Ok(()));
    assert!(state.w1_seeded);
    let mut prev = ((hi as u128) << 64) | lo as u128;
    assert!(is_v7(hi, lo));
    for _ in 0..10_000 {
        assert_eq!(Fast::build_uuid7(&mut state, &mut SystemClock, &mut hi, &mut lo), Ok(()));
        assert!(is_v7(hi, lo));
        let v = ((hi as u128) << 64) | lo as u128;
        assert!(v > prev);
        prev = v;
        assert_eq!(hi >> 16, state.last_ms);
    }
}

#[test]
fn secure_generator_is_monotonic_and_shares_the_clock() {
    let mut state = GeneratorState::new();
    let mut rng: StdRng = rand::make_rng();
    let (mut hi, mut lo) = (0u64, 0u64);
    assert_eq!(Secure::build_uuid7(&mut state, &mut rng, &mut SystemClock, &mut hi, &mut lo), Ok(()));
    let mut prev = ((hi as u128) << 64) | lo as u128;
    for i in 0..2_000 {
        let r = if i % 2 == 0 {
            Secure::build_uuid7(&mut state, &mut rng, &mut SystemClock, &mut hi, &mut lo)
        } else {
            Fast::build_uuid7(&mut state, &mut SystemClock, &mut hi, &mut lo)
        };
        assert_eq!(r, Ok(()));
        assert!(is_v7(hi, lo));
        let v = ((hi as u128) << 64) | lo as u128;
        assert!(v > prev);
        prev = v;
    }
}

#[test]
fn clock_going_back_keeps_order() {
    let mut state = GeneratorState::new();
    assert_eq!(ensure_seeded(&mut state, &mut SystemClock), Ok(()));
    let (mut h1, mut l1) = (0u64, 0u64);
    assert_eq!(Fast::build_uuid7_with_args(&mut state, &mut SystemClock, 5_000, false, 0, false, &mut h1, &mut l1), Ok(()));
    assert_eq!(state.last_ms, 5_000);
    let (mut h2, mut l2) = (0u64, 0u64);
    assert_eq!(Fast::build_uuid7_with_args(&mut state, &mut SystemClock, 4_000, false, 0, false, &mut h2, &mut l2), Ok(()));
    assert_eq!(h2 >> 16, 5_000);
    assert!((h2, l2) > (h1, l1));
}

#[test]
fn arguments_fix_timestamp_and_nanos() {
    let mut state = GeneratorState::new();
    let (mut hi, mut lo) = (0u64, 0u64);
    assert_eq!(Fast::build_uuid7_with_args(&mut state, &mut SystemClock, 1_700_000_000_123, true, 123_456_789, true, &mut hi, &mut lo), Ok(()));
    assert_eq!(hi >> 16, 1_700_000_000_123);
    assert_eq!(hi & 0xFFF, 123_456_789 & 0xFFF);
    assert!(is_v7(hi, lo));
    assert_eq!(state.last_ms, 0);
    assert_eq!(state.counter42, 0);
}

#[test]
fn build_timestamp_ms_values() {
    assert_eq!(build_timestamp_ms(&mut SystemClock, 1_700_000_000, true, 123_456_789, true), Ok(1_700_000_000_123));
    assert_eq!(build_timestamp_ms(&mut SystemClock, 1_700_000_000, true, 123_456_789, false), Ok(1_700_000_000_000));
    assert_eq!(build_timestamp_ms(&mut SystemClock, MAX_TS_S, true, 655_999_999, true), Ok(MAX_TS_MS));
    assert_eq!(build_timestamp_ms(&mut SystemClock, MAX_TS_S, true, 656_000_000, true), Err(UuidError::TimestampTooLarge));
    assert_eq!(build_timestamp_ms(&mut SystemClock, MAX_TS_S + 1, true, 0, false), Err(UuidError::TimestampTooLarge));
    assert!(build_timestamp_ms(&mut SystemClock, 0, false, 0, false).unwrap() > 1_600_000_000_000);
    assert_eq!(UuidError::TimestampTooLarge.message(), "timestamp is too large");
}

#[test]
fn uuid7_parts_paths() {
    let mut state = GeneratorState::new();
    let mut rng: StdRng = rand::make_rng();
    let (hi, lo) = uuid7_parts(&mut state, &mut rng, &mut SystemClock, Some(1_700_000_000), Some(5_000_000), true).unwrap();
    assert_eq!(hi >> 16, 1_700_000_000_005);
    assert_eq!(hi & 0xFFF, 5_000_000 & 0xFFF);
    assert!(is_v7(hi, lo));
    let (hi, lo) = uuid7_parts(&mut state, &mut rng, &mut SystemClock, Some(1_700_000_000), None, false).unwrap();
    assert_eq!(hi >> 16, 1_700_000_000_000);
    assert!(is_v7(hi, lo));
    let (hi, lo) = uuid7_parts(&mut state, &mut rng, &mut SystemClock, None, None, true).unwrap();
    assert!(is_v7(hi, lo));
    assert_eq!(hi >> 16, state.last_ms);
    let (hi, lo) = uuid7_parts(&mut state, &mut rng, &mut SystemClock, None, Some(7), false).unwrap();
    assert!(is_v7(hi, lo));
    assert_eq!(
        uuid7_parts(&mut state, &mut rng, &mut SystemClock, None, Some(MAX_NANOS), false),
        Err(UuidError::NanosOutOfRange)
    );
    assert_eq!(
        uuid7_parts(&mut state, &mut rng, &mut SystemClock, Some(MAX_TS_S + 1), None, true),
        Err(UuidError::TimestampTooLarge)
    );
    assert_eq!(UuidError::NanosOutOfRange.message(), "nanos must be in range 0..999999999");
}

#[test]
fn reseed_restarts_the_clock() {
    let mut state = GeneratorState::new();
    let (mut hi, mut lo) = (0u64, 0u64);
    assert_eq!(Fast::build_uuid7(&mut state, &mut SystemClock, &mut hi, &mut lo), Ok(()));
    assert!(state.last_ms > 0);
    let w = state.w1_state;
    reseed(&mut state);
    assert_eq!(state, GeneratorState { w1_state: w, w1_seeded: false, last_ms: 0, counter42: 0 });
}

#[test]
fn ensure_seeded_seeds_once() {
    let mut state = GeneratorState::new();
    assert!(!state.w1_seeded);
    assert_eq!(ensure_seeded(&mut state, &mut SystemClock), Ok(()));
    assert!(state.w1_seeded);
    let after = state;
    assert_eq!(ensure_seeded(&mut state, &mut SystemClock), Ok(()));
    assert_eq!(state, after);
}

#[test]
fn random_bytes_and_clock() {
    let mut buf = [0u8; 64];
    assert_eq!(fill_random(&mut buf), 0);
    let mut empty: [u8; 0] = [];
    assert_eq!(fill_random(&mut empty), 0);
    assert!(buf.iter().any(|&b| b != 0));
    let a = now_ms().unwrap();
    let b = now_ms().unwrap();
    assert!(a > 1_600_000_000_000 && b >= a);
    platform_seeded();
    assert_eq!(UuidError::RandomBytesUnavailable.kind(), ExceptionKind::OSError);
    assert_eq!(UuidError::ClockBeforeEpoch.kind(), ExceptionKind::Panic);
    assert_eq!(UuidError::ClockBeforeEpoch.message(), "system clock is before UNIX_EPOCH");
}

#[test]
fn fast_generator_words_are_exact() {
    let mut state = GeneratorState::new();
    assert_eq!(ensure_seeded(&mut state, &mut SystemClock), Ok(()));
    let mut model = W1Rng::new(state.w1_state);
    let w = model.next_word();
    let (mut hi, mut lo) = (0u64, 0u64);
    assert_eq!(Fast::build_uuid7_with_args(&mut state, &mut SystemClock, 1005, true, 5_000_000, true, &mut hi, &mut lo), Ok(()));
    assert_eq!(hi, (1005 << 16) | 0x7000 | (5_000_000 & 0xFFF));
    assert_eq!(lo, 0x8000_0000_0000_0000 | (w & 0x3FFF_FFFF_FFFF_FFFF));
    assert_eq!(state.w1_state, model.state);
    let (h2, l2) = (hi, lo);
    assert_eq!(Fast::build_uuid7_with_args(&mut state, &mut SystemClock, 1005, true, 5_000_000, true, &mut hi, &mut lo), Ok(()));
    assert_eq!(hi, h2);
    assert_eq!(lo, 0x8000_0000_0000_0000 | (model.next_word() & 0x3FFF_FFFF_FFFF_FFFF));
    assert_ne!(lo, l2);
    let w1 = model.next_word();
    let w2 = model.next_word();
    assert_eq!(Fast::build_uuid7_with_args(&mut state, &mut SystemClock, 7_000, true, 0, false, &mut hi, &mut lo), Ok(()));
    let counter = w1 & 0x3FF_FFFF_FFFF;
    assert_eq!(hi, (7_000 << 16) | 0x7000 | (counter >> 30));
    assert_eq!(lo, 0x8000_0000_0000_0000 | ((counter & 0x3FFF_FFFF) << 32) | (w2 & 0xFFFF_FFFF));
    assert_eq!(state.w1_state, model.state);
}

#[test]
fn secure_generator_leaves_the_fast_state() {
    let mut state = GeneratorState::new();
    let mut rng: StdRng = rand::make_rng();
    assert_eq!(ensure_seeded(&mut state, &mut SystemClock), Ok(()));
    let s = state.w1_state;
    let (mut hi, mut lo) = (0u64, 0u64);
    assert_eq!(Secure::build_uuid7(&mut state, &mut rng, &mut SystemClock, &mut hi, &mut lo), Ok(()));
    assert_eq!(Secure::build_uuid7_with_args(&mut state, &mut rng, &mut SystemClock, 1005, true, 0, false, &mut hi, &mut lo), Ok(()));
    assert_eq!(state.w1_state, s);
    let (hi, lo) = uuid7_parts(&mut state, &mut rng, &mut SystemClock, Some(1), None, true).unwrap();
    assert!(is_v7(hi, lo));
    assert_eq!(state.w1_state, s);
}

#[test]
fn clock_steps_in_detail() {
    let mut state = GeneratorState::new();
    assert_eq!(ensure_seeded(&mut state, &mut SystemClock), Ok(()));
    let (mut hi, mut lo) = (0u64, 0u64);
    assert_eq!(Fast::build_uuid7_with_args(&mut state, &mut SystemClock, 5_000, false, 0, false, &mut hi, &mut lo), Ok(()));
    assert_eq!(state.last_ms, 5_000);
    assert_eq!(hi >> 16, 5_000);
    for _ in 0..1_000 {
        let (ms, c) = (state.last_ms, state.counter42);
        assert_eq!(Fast::build_uuid7_with_args(&mut state, &mut SystemClock, 4_000, false, 0, false, &mut hi, &mut lo), Ok(()));
        if state.last_ms == ms {
            assert!(state.counter42 > c && state.counter42 - c <= 16);
        } else {
            assert_eq!(state.last_ms, ms + 1);
            assert!(c > 0x3FF_FFFF_FFFF - 16);
        }
        assert!(hi >> 16 >= 4_000 && hi >> 16 <= ms + 1);
    }
    assert_eq!(Fast::build_uuid7_with_args(&mut state, &mut SystemClock, 9_000, false, 0, false, &mut hi, &mut lo), Ok(()));
    assert_eq!(state.last_ms, 9_000);
}

#[test]
fn clock_step_on_given_readings() {
    let mut state = GeneratorState { w1_state: 42, w1_seeded: true, last_ms: 1_000, counter42: 5 };
    let mut rng = W1Rng::new(42);
    let mut model = W1Rng::new(42);
    let (mut hi, mut lo) = (0u64, 0u64);
    // The clock reads behind the last millisecond: one word, the counter steps by 1 to 16.
    build_uuid7_monotonic(&mut state, 900, &mut hi, &mut lo, &mut rng);
    let r = model.next_word();
    let counter = 5 + 1 + ((r >> 32) & 0x0f);
    assert_eq!((state.last_ms, state.counter42), (1_000, counter));
    assert_eq!(hi, (1_000 << 16) | 0x7000 | (counter >> 30));
    assert_eq!(lo, 0x8000_0000_0000_0000 | ((counter & 0x3FFF_FFFF) << 32) | (r & 0xFFFF_FFFF));
    assert_eq!(rng.state, model.state);
    // The clock moves on: two words, a fresh counter from the second.
    build_uuid7_monotonic(&mut state, 2_000, &mut hi, &mut lo, &mut rng);
    let r = model.next_word();
    let fresh = model.next_word() & 0x3FF_FFFF_FFFF;
    assert_eq!((state.last_ms, state.counter42), (2_000, fresh));
    assert_eq!(lo & 0xFFFF_FFFF, r & 0xFFFF_FFFF);
    assert_eq!(rng.state, model.state);
}
