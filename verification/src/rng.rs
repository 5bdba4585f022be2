//! The UUID version 7 generator: random words from a fast mixing generator or
//! from a ChaCha12 generator, a millisecond clock, and the monotonic counter
//! that keeps UUIDs made within one millisecond in increasing order.

use vstd::prelude::*;
use rand::rngs::{StdRng, SysError, SysRng};
use rand::{Rng, TryRng};
use crate::model::{two_pow_64, uuid_value};
use crate::python::exceptions::UuidError;

verus! {

#[verifier::external_type_specification]
#[verifier::external_body]
pub struct ExStdRng(StdRng);

#[verifier::external_type_specification]
#[verifier::external_body]
pub struct ExSysError(SysError);

/// The millisecond clock the generator reads, and is told of seeding: a
/// platform may take the offset of its clock from the Unix epoch when the
/// generator is seeded. What the readings are is the clock's; the generator
/// is held to using the readings it takes.
pub trait MsClock: Sized {
    /// Whether a reading may give `r` and leave the clock as `after`: by
    /// default nothing is known of a clock's readings.
    open spec fn reads(&self, r: Option<u64>, after: Self) -> bool {
        true
    }

    /// Whether being told of seeding may leave the clock as `after`: by
    /// default nothing is known of it.
    open spec fn told_seeded(&self, after: Self) -> bool {
        true
    }

    /// Milliseconds since the Unix epoch, or `None` should the clock read
    /// before it.
    fn now_ms(&mut self) -> (r: Option<u64>)
        ensures
            old(self).reads(r, *final(self)),
    ;

    /// Called once the fast generator has just been seeded.
    fn seeded(&mut self)
        ensures
            old(self).told_seeded(*final(self)),
    ;
}

/// The clock after seeding `state`: told of it where seeding succeeded on an
/// unseeded state, else untouched.
pub open spec fn clock_after_seeding<K: MsClock>(
    state: GeneratorState,
    seeding: Result<(), UuidError>,
    before: K,
    after: K,
) -> bool {
    if !state.w1_seeded && seeding is Ok {
        before.told_seeded(after)
    } else {
        after == before
    }
}

/// The clock went from `before` to `after` by seeding `state` (with success)
/// and then one reading that gave `reading`.
pub open spec fn reads_after_seeding<K: MsClock>(
    state: GeneratorState,
    before: K,
    after: K,
    reading: Option<u64>,
) -> bool {
    exists|told: K| clock_after_seeding(state, Ok(()), before, told) && #[trigger] told.reads(reading, after)
}

/// How a UUID made from the clock uses the clock: after any seeding it reads
/// the clock once, and the step of the monotonic clock is taken at exactly
/// that reading; a clock before the Unix epoch is the error, and where
/// seeding fails the clock is not touched.
pub open spec fn clock_build_outcome<K: MsClock>(
    before: GeneratorState,
    after: GeneratorState,
    clock_before: K,
    clock_after: K,
    r: Result<(), UuidError>,
    high: u64,
    low: u64,
) -> bool {
    &&& r is Ok ==> exists|observed_ms: u64|
        #[trigger] reads_after_seeding(before, clock_before, clock_after, Some(observed_ms))
            && monotonic_step(before, after, observed_ms, high, low)
    &&& r == Err::<(), UuidError>(UuidError::ClockBeforeEpoch) ==> reads_after_seeding(
        before,
        clock_before,
        clock_after,
        None,
    )
    &&& r == Err::<(), UuidError>(UuidError::RandomBytesUnavailable) ==> clock_after == clock_before
}

/// Calls `SysRng::try_fill_bytes` (rand, through getrandom): fills `buf` from
/// the operating system's entropy source, or fails with its error. An empty
/// `buf` asks nothing of the operating system and succeeds (getrandom's
/// `fill_uninit` skips the call when the buffer is empty). For any other `buf`,
/// what bytes come, and whether it fails, rest on the operating system and are
/// not stated.
#[verifier::external_body]
fn sys_rng_fill(buf: &mut [u8]) -> (r: Result<(), SysError>)
    ensures
        final(buf)@.len() == old(buf)@.len(),
        old(buf)@.len() == 0 ==> r is Ok,
{
    SysRng.try_fill_bytes(buf)
}

/// Calls `Rng::next_u64` on the ChaCha12-based `StdRng`: the next random word.
/// Nothing is stated of its value.
#[verifier::external_body]
fn std_rng_next_u64(rng: &mut StdRng) -> u64 {
    Rng::next_u64(rng)
}

/// Calls `u64::from_ne_bytes`: the word of eight bytes in the machine's byte
/// order, which differs between machines and so is not stated.
#[verifier::external_body]
fn u64_from_ne_bytes(bytes: [u8; 8]) -> u64 {
    u64::from_ne_bytes(bytes)
}

/// The increment of the mixing generator's state.
pub const C: u64 = 0xd07e_bc63_2746_54c7;

/// The low 42 bits: the counter within a millisecond.
pub const MASK42: u64 = 0x3FF_FFFF_FFFF;

/// The low 30 bits: the part of the counter in the low half.
pub const MASK30: u64 = 0x3FFF_FFFF;

/// The low 62 bits: the random tail below the variant.
pub const MASK62: u64 = 0x3FFF_FFFF_FFFF_FFFF;

/// Fills `buf` with random bytes from the operating system: 0 on success, -1
/// if the operating system gave none. An empty `buf` always succeeds.
pub fn fill_random(buf: &mut [u8]) -> (r: i32)
    ensures
        r == 0 || r == -1,
        old(buf)@.len() == 0 ==> r == 0,
        final(buf)@.len() == old(buf)@.len(),
{
    match sys_rng_fill(buf) {
        Ok(()) => 0,
        Err(_) => -1,
    }
}

/// The mixing function: the 128-bit product of `a` and `b`, its high half
/// exclusive-or its low half.
pub open spec fn spec_w1_mix(a: u64, b: u64) -> u64 {
    let t = a as int * b as int;
    ((t / two_pow_64()) as u64) ^ ((t % two_pow_64()) as u64)
}

pub fn w1_mix(a: u64, b: u64) -> (r: u64)
    ensures
        r == spec_w1_mix(a, b),
{
    assert(a as int * b as int <= 0xFFFF_FFFF_FFFF_FFFF * 0xFFFF_FFFF_FFFF_FFFF) by (nonlinear_arith);
    let t = (a as u128) * (b as u128);
    assert((t >> 64u128) as u64 == (t as int / two_pow_64()) as u64 && #[verifier::truncate] (t
        as u64) == (t as int % two_pow_64()) as u64) by (bit_vector);
    ((t >> 64u128) as u64) ^ #[verifier::truncate] (t as u64)
}

/// The state the generator keeps between calls: the mixing generator's word
/// and whether it has been seeded, and the monotonic clock (the last
/// millisecond used and the 42-bit counter within it).
#[derive(Clone, Copy, Debug, PartialEq, Eq, Structural)]
pub struct GeneratorState {
    pub w1_state: u64,
    pub w1_seeded: bool,
    pub last_ms: u64,
    pub counter42: u64,
}

impl GeneratorState {
    /// The counter never exceeds 42 bits.
    pub open spec fn wf(&self) -> bool {
        self.counter42 <= MASK42
    }

    /// The state before the first UUID: unseeded, clock and counter at zero.
    pub fn new() -> (s: Self)
        ensures
            s.wf(),
            s == (GeneratorState { w1_state: 0, w1_seeded: false, last_ms: 0, counter42: 0 }),
    {
        GeneratorState { w1_state: 0, w1_seeded: false, last_ms: 0, counter42: 0 }
    }
}

/// Seeds the mixing generator from 16 bytes of the operating system, then
/// tells the clock.
fn seed_rng<K: MsClock>(state: &mut GeneratorState, clock: &mut K) -> (r: Result<
    (),
    UuidError,
>)
    ensures
        r is Ok ==> final(state).w1_seeded,
        r is Err ==> r == Err::<(), UuidError>(UuidError::RandomBytesUnavailable) && *final(state)
            == *old(state),
        final(state).last_ms == old(state).last_ms,
        final(state).counter42 == old(state).counter42,
        r is Ok ==> old(clock).told_seeded(*final(clock)),
        r is Err ==> *final(clock) == *old(clock),
{
    let mut buf = [0u8; 16];
    if fill_random(&mut buf) != 0 {
        return Err(UuidError::RandomBytesUnavailable);
    }
    let l = u64_from_ne_bytes([buf[0], buf[1], buf[2], buf[3], buf[4], buf[5], buf[6], buf[7]]);
    let r = u64_from_ne_bytes(
        [buf[8], buf[9], buf[10], buf[11], buf[12], buf[13], buf[14], buf[15]],
    );
    state.w1_state = l ^ w1_mix(r, r ^ C);
    state.w1_seeded = true;
    clock.seeded();
    Ok(())
}

/// What seeding gives: a seeded state is left as it is and succeeds; an
/// unseeded one is seeded from the operating system, keeping the clock, or,
/// where the operating system gives no bytes, is left as it was, still
/// unseeded, with the error.
pub open spec fn seeding_outcome(
    before: GeneratorState,
    after: GeneratorState,
    r: Result<(), UuidError>,
) -> bool {
    if before.w1_seeded {
        r is Ok && after == before
    } else {
        match r {
            Ok(()) => after.w1_seeded && after.last_ms == before.last_ms && after.counter42
                == before.counter42,
            Err(e) => e == UuidError::RandomBytesUnavailable && after == before,
        }
    }
}

/// Seeds the mixing generator unless it is seeded already.
pub fn ensure_seeded<K: MsClock>(state: &mut GeneratorState, clock: &mut K) -> (r: Result<
    (),
    UuidError,
>)
    ensures
        seeding_outcome(*old(state), *final(state), r),
        old(state).w1_seeded ==> r is Ok && *final(state) == *old(state),
        r is Ok ==> final(state).w1_seeded,
        r is Err ==> r == Err::<(), UuidError>(UuidError::RandomBytesUnavailable) && *final(state)
            == *old(state),
        final(state).last_ms == old(state).last_ms,
        final(state).counter42 == old(state).counter42,
        clock_after_seeding(*old(state), r, *old(clock), *final(clock)),
{
    if state.w1_seeded {
        Ok(())
    } else {
        seed_rng(state, clock)
    }
}

/// Forgets the seed and restarts the monotonic clock (after a fork, say).
pub fn reseed(state: &mut GeneratorState)
    ensures
        final(state).wf(),
        !final(state).w1_seeded,
        final(state).last_ms == 0,
        final(state).counter42 == 0,
        final(state).w1_state == old(state).w1_state,
{
    state.w1_seeded = false;
    state.last_ms = 0;
    state.counter42 = 0;
}

/// Whether a step of the monotonic clock draws a fresh counter: the clock
/// has moved past the last millisecond, or the counter, advanced by `r`,
/// would pass 42 bits.
pub open spec fn draws_fresh(last_ms: u64, counter: u64, observed_ms: u64, r: u64) -> bool {
    observed_ms > last_ms || counter + 1 + ((r >> 32u64) & 0x0f) > MASK42
}

/// The millisecond and counter after one step of the monotonic clock, given
/// the clock's reading `observed_ms`, the first random word `r` and, where a
/// fresh counter is drawn, the second random word `fresh`. A later millisecond
/// starts a fresh random counter; otherwise the counter advances by 1 to 16,
/// and on passing 42 bits the millisecond advances with a fresh counter.
pub open spec fn spec_advance(
    last_ms: u64,
    counter: u64,
    observed_ms: u64,
    r: u64,
    fresh: u64,
) -> (u64, u64) {
    if observed_ms > last_ms {
        (observed_ms, fresh & MASK42)
    } else {
        let c = counter + 1 + ((r >> 32u64) & 0x0f);
        if c > MASK42 {
            (if last_ms == u64::MAX {
                0
            } else {
                (last_ms + 1) as u64
            }, fresh & MASK42)
        } else {
            (last_ms, c as u64)
        }
    }
}

/// The timestamp, 12-bit `rand_a` and 62-bit tail a step hands out: the
/// counter's top 12 bits, then its low 30 bits above the low half of `r`.
pub open spec fn step_outputs(ms: u64, counter: u64, r: u64) -> (u64, u16, u64) {
    (ms, (counter >> 30u64) as u16, ((counter & MASK30) << 32u64) | ((r as u32) as u64))
}

/// The two halves of a version 7 UUID: 48-bit timestamp, version 7, 12-bit
/// `rand_a`; variant `10`, 62-bit tail.
pub open spec fn spec_build_words(ts_ms: u64, rand_a: u16, tail62: u64) -> (u64, u64) {
    (
        (ts_ms << 16u64) | 0x7000 | (rand_a as u64),
        0x8000_0000_0000_0000 | tail62,
    )
}

/// Whether two halves carry version 7 and the RFC 9562 variant.
pub open spec fn is_version7(hi: u64, lo: u64) -> bool {
    (hi >> 12u64) & 0xF == 7 && lo >> 62u64 == 2
}

/// A source of random words.
pub trait WordRng: Sized {
    /// Whether one draw may hand out `w` and leave the source as `after`.
    spec fn draws(&self, w: u64, after: Self) -> bool;

    /// Draws the next word.
    fn next_word(&mut self) -> (w: u64)
        ensures
            old(self).draws(w, *final(self)),
    ;
}

/// `after` follows `before` by one draw that handed out `w1`, or, when
/// `twice`, by two draws that handed out `w1` and then `w2`.
pub open spec fn drew<R: WordRng>(before: R, after: R, w1: u64, w2: u64, twice: bool) -> bool {
    if twice {
        exists|mid: R| #[trigger] before.draws(w1, mid) && mid.draws(w2, after)
    } else {
        before.draws(w1, after)
    }
}

/// The fast generator's state after one draw.
pub open spec fn w1_next(s: u64) -> u64 {
    s.wrapping_add(C)
}

/// The word the fast generator hands out from state `s`.
pub open spec fn w1_word(s: u64) -> u64 {
    spec_w1_mix(w1_next(s), w1_next(s) ^ C)
}

/// The fast generator: a Weyl sequence with increment `C`, each step's state
/// mixed into the word handed out.
pub struct W1Rng {
    pub state: u64,
}

impl W1Rng {
    /// A generator continuing from the stored state.
    pub fn new(state: u64) -> (r: Self)
        ensures
            r.state == state,
    {
        W1Rng { state }
    }
}

impl WordRng for W1Rng {
    /// One step of the Weyl sequence, handing out the mix of the new state.
    open spec fn draws(&self, w: u64, after: Self) -> bool {
        after.state == w1_next(self.state) && w == w1_word(self.state)
    }

    fn next_word(&mut self) -> (r: u64)
        ensures
            final(self).state == old(self).state.wrapping_add(C),
            r == spec_w1_mix(final(self).state, final(self).state ^ C),
    {
        self.state = self.state.wrapping_add(C);
        w1_mix(self.state, self.state ^ C)
    }
}

impl WordRng for StdRng {
    /// Nothing is known of the ChaCha12 generator's words or of its state
    /// after a draw: it was seeded from the operating system.
    open spec fn draws(&self, w: u64, after: Self) -> bool {
        true
    }

    fn next_word(&mut self) -> u64 {
        std_rng_next_u64(self)
    }
}

/// One step of the monotonic clock: reads the state, draws one random word
/// (two where a fresh counter is needed), and stores the new millisecond and
/// counter.
fn advance_monotonic_with<R: WordRng>(
    state: &mut GeneratorState,
    observed_ms: u64,
    timestamp_ms: &mut u64,
    rand_a: &mut u16,
    tail62: &mut u64,
    rng: &mut R,
)
    requires
        old(state).wf(),
    ensures
        final(state).wf(),
        final(state).w1_state == old(state).w1_state,
        final(state).w1_seeded == old(state).w1_seeded,
        exists|r: u64, fresh: u64|
            {
                let (ms, c) = #[trigger] spec_advance(
                    old(state).last_ms,
                    old(state).counter42,
                    observed_ms,
                    r,
                    fresh,
                );
                &&& final(state).last_ms == ms
                &&& final(state).counter42 == c
                &&& (*final(timestamp_ms), *final(rand_a), *final(tail62)) == step_outputs(ms, c, r)
                &&& drew(
                    *old(rng),
                    *final(rng),
                    r,
                    fresh,
                    draws_fresh(old(state).last_ms, old(state).counter42, observed_ms, r),
                )
            },
{
    let mut counter = state.counter42;
    let mut current_ms = state.last_ms;
    let ghost rng0 = *rng;
    let r = rng.next_word();
    let ghost rng1 = *rng;
    let low32 = #[verifier::truncate] (r as u32);
    let mut fresh: u64 = 0;
    if observed_ms > current_ms {
        current_ms = observed_ms;
        fresh = rng.next_word();
        counter = fresh & MASK42;
    } else {
        assert(((r >> 32u64) & 0x0f) <= 15) by (bit_vector);
        let increment = 1 + ((r >> 32u64) & 0x0f);
        counter = counter + increment;
        if counter > MASK42 {
            current_ms = current_ms.wrapping_add(1);
            fresh = rng.next_word();
            counter = fresh & MASK42;
        }
    }
    proof {
        lemma_mask42(fresh);
    }
    state.last_ms = current_ms;
    state.counter42 = counter;
    *timestamp_ms = current_ms;
    *rand_a = (counter >> 30u64) as u16;
    *tail62 = ((counter & MASK30) << 32u64) | (low32 as u64);
    assert(spec_advance(old(state).last_ms, old(state).counter42, observed_ms, r, fresh) == (
    current_ms, counter));
    proof {
        if draws_fresh(old(state).last_ms, old(state).counter42, observed_ms, r) {
            assert(rng0.draws(r, rng1) && rng1.draws(fresh, *rng));
        }
    }
    assert(drew(
        rng0,
        *rng,
        r,
        fresh,
        draws_fresh(old(state).last_ms, old(state).counter42, observed_ms, r),
    ));
}

/// The two halves of a version 7 UUID from its timestamp, `rand_a` and tail.
pub fn build_words(ts_ms: u64, rand_a: u16, tail62: u64) -> (r: (u64, u64))
    ensures
        r == spec_build_words(ts_ms, rand_a, tail62),
        rand_a < 0x1000 && tail62 <= MASK62 ==> is_version7(r.0, r.1),
        rand_a < 0x1000 && tail62 <= MASK62 && ts_ms <= 0xFFFF_FFFF_FFFF ==> r.0 >> 16u64 == ts_ms
            && r.0 & 0xFFF == rand_a as u64 && r.1 & MASK62 == tail62,
{
    let v7_version: u64 = 0x7000;
    let v7_variant: u64 = 0x8000_0000_0000_0000;
    let r = ((ts_ms << 16u64) | v7_version | (rand_a as u64), v7_variant | tail62);
    proof {
        if rand_a < 0x1000 && tail62 <= MASK62 {
            lemma_version7_layout(ts_ms, rand_a, tail62);
        }
    }
    r
}

/// The `rand_a` and tail made from arguments: with both a timestamp and
/// nanoseconds, the low 12 bits of the nanoseconds and 62 random bits; with
/// one of them, a random 42-bit counter above 32 random bits, as a fresh
/// millisecond would start.
pub open spec fn spec_args_bits(has_ts: bool, has_nanos: bool, nanos: u64, w1: u64, w2: u64) -> (
    u16,
    u64,
) {
    if has_ts && has_nanos {
        ((nanos & 0x0FFF) as u16, w1 & MASK62)
    } else {
        let counter = w1 & MASK42;
        ((counter >> 30u64) as u16, ((counter & MASK30) << 32u64) | ((w2 as u32) as u64))
    }
}

/// `new` follows `old` by one step of the monotonic clock read at
/// `observed_ms`, for some random words, and `(high, low)` is the UUID made.
pub open spec fn monotonic_step(
    old: GeneratorState,
    new: GeneratorState,
    observed_ms: u64,
    high: u64,
    low: u64,
) -> bool {
    exists|r: u64, fresh: u64|
        {
            let (ms, c) = #[trigger] spec_advance(old.last_ms, old.counter42, observed_ms, r, fresh);
            let (ts, ra, t62) = step_outputs(ms, c, r);
            &&& new.last_ms == ms
            &&& new.counter42 == c
            &&& (high, low) == spec_build_words(ts, ra, t62)
        }
}

/// The UUID made from arguments, for some random words: with a timestamp or
/// nanoseconds, at `ts_ms` with the bits of `spec_args_bits` and the clock left
/// alone; with neither, one step of the monotonic clock read at `ts_ms`.
pub open spec fn args_step(
    old: GeneratorState,
    new: GeneratorState,
    ts_ms: u64,
    has_ts: bool,
    nanos: u64,
    has_nanos: bool,
    high: u64,
    low: u64,
) -> bool {
    if has_ts || has_nanos {
        &&& new.last_ms == old.last_ms
        &&& new.counter42 == old.counter42
        &&& exists|w1: u64, w2: u64|
            {
                let (ra, t62) = #[trigger] spec_args_bits(has_ts, has_nanos, nanos, w1, w2);
                (high, low) == spec_build_words(ts_ms, ra, t62)
            }
    } else {
        monotonic_step(old, new, ts_ms, high, low)
    }
}

/// One step of the monotonic clock read at `observed_ms` that drew its words
/// from a source going from `before` to `after`: the first word fills the
/// low half of the tail and may advance the counter, and a second is drawn
/// exactly when a fresh counter is needed.
pub open spec fn clock_step_with<R: WordRng>(
    old: GeneratorState,
    new: GeneratorState,
    observed_ms: u64,
    high: u64,
    low: u64,
    before: R,
    after: R,
) -> bool {
    exists|r: u64, fresh: u64|
        {
            let (ms, c) = #[trigger] spec_advance(old.last_ms, old.counter42, observed_ms, r, fresh);
            let (ts, ra, t62) = step_outputs(ms, c, r);
            &&& new.last_ms == ms
            &&& new.counter42 == c
            &&& (high, low) == spec_build_words(ts, ra, t62)
            &&& drew(before, after, r, fresh, draws_fresh(old.last_ms, old.counter42, observed_ms, r))
        }
}

/// The UUID made from arguments with words drawn from a source going from
/// `before` to `after`: with a timestamp or nanoseconds, the bits of
/// `spec_args_bits` from one word (both given) or two (one given), the clock
/// left alone; with neither, a step of the monotonic clock.
pub open spec fn args_step_with<R: WordRng>(
    old: GeneratorState,
    new: GeneratorState,
    ts_ms: u64,
    has_ts: bool,
    nanos: u64,
    has_nanos: bool,
    high: u64,
    low: u64,
    before: R,
    after: R,
) -> bool {
    if has_ts || has_nanos {
        &&& new.last_ms == old.last_ms
        &&& new.counter42 == old.counter42
        &&& exists|w1: u64, w2: u64|
            {
                let (ra, t62) = #[trigger] spec_args_bits(has_ts, has_nanos, nanos, w1, w2);
                &&& (high, low) == spec_build_words(ts_ms, ra, t62)
                &&& drew(before, after, w1, w2, !(has_ts && has_nanos))
            }
    } else {
        clock_step_with(old, new, ts_ms, high, low, before, after)
    }
}

/// The generator state once seeding is done: `old` itself where it was seeded
/// already, else a seeded state with the same clock and a seed from the
/// operating system.
pub open spec fn seeded_from(old: GeneratorState, seeded: GeneratorState) -> bool {
    &&& seeded.w1_seeded
    &&& seeded.last_ms == old.last_ms
    &&& seeded.counter42 == old.counter42
    &&& old.w1_seeded ==> seeded == old
}

/// One step of the monotonic clock read at `observed_ms` with the fast
/// generator: its first word from `old.w1_state`, a second from the state after
/// it where a fresh counter is needed, and the generator's state stored after
/// the words drawn.
pub open spec fn fast_clock_step(
    old: GeneratorState,
    new: GeneratorState,
    observed_ms: u64,
    high: u64,
    low: u64,
) -> bool {
    let s1 = w1_next(old.w1_state);
    let r = w1_word(old.w1_state);
    let fresh = w1_word(s1);
    let twice = draws_fresh(old.last_ms, old.counter42, observed_ms, r);
    let (ms, c) = spec_advance(old.last_ms, old.counter42, observed_ms, r, fresh);
    let (ts, ra, t62) = step_outputs(ms, c, r);
    &&& new == GeneratorState {
        w1_state: if twice {
            w1_next(s1)
        } else {
            s1
        },
        w1_seeded: old.w1_seeded,
        last_ms: ms,
        counter42: c,
    }
    &&& (high, low) == spec_build_words(ts, ra, t62)
}

/// The UUID made from arguments with the fast generator: with a timestamp or
/// nanoseconds, the bits of `spec_args_bits` from the generator's next word
/// (both given) or next two words (one given), the clock left alone and the
/// generator's state stored after the words drawn; with neither, a step of
/// the monotonic clock.
pub open spec fn fast_args_step(
    old: GeneratorState,
    new: GeneratorState,
    ts_ms: u64,
    has_ts: bool,
    nanos: u64,
    has_nanos: bool,
    high: u64,
    low: u64,
) -> bool {
    if has_ts || has_nanos {
        let s1 = w1_next(old.w1_state);
        let (ra, t62) = spec_args_bits(
            has_ts,
            has_nanos,
            nanos,
            w1_word(old.w1_state),
            w1_word(s1),
        );
        &&& new == GeneratorState {
            w1_state: if has_ts && has_nanos {
                s1
            } else {
                w1_next(s1)
            },
            ..old
        }
        &&& (high, low) == spec_build_words(ts_ms, ra, t62)
    } else {
        fast_clock_step(old, new, ts_ms, high, low)
    }
}

/// A clock step whose words the fast generator drew is the fast clock step.
proof fn lemma_w1_clock_step(
    old: GeneratorState,
    built: GeneratorState,
    new: GeneratorState,
    observed_ms: u64,
    high: u64,
    low: u64,
    before: W1Rng,
    after: W1Rng,
)
    requires
        clock_step_with(old, built, observed_ms, high, low, before, after),
        before.state == old.w1_state,
        new == (GeneratorState {
            w1_state: after.state,
            w1_seeded: old.w1_seeded,
            last_ms: built.last_ms,
            counter42: built.counter42,
        }),
    ensures
        fast_clock_step(old, new, observed_ms, high, low),
{
    let (r, fresh) = choose|r: u64, fresh: u64|
        {
            let (ms, c) = #[trigger] spec_advance(old.last_ms, old.counter42, observed_ms, r, fresh);
            let (ts, ra, t62) = step_outputs(ms, c, r);
            &&& built.last_ms == ms
            &&& built.counter42 == c
            &&& (high, low) == spec_build_words(ts, ra, t62)
            &&& drew(before, after, r, fresh, draws_fresh(old.last_ms, old.counter42, observed_ms, r))
        };
    let s1 = w1_next(old.w1_state);
    if draws_fresh(old.last_ms, old.counter42, observed_ms, r) {
        let mid = choose|mid: W1Rng| #[trigger] before.draws(r, mid) && mid.draws(fresh, after);
        assert(mid.state == s1);
        assert(fresh == w1_word(s1));
    } else {
        assert(r == w1_word(old.w1_state));
        assert(spec_advance(old.last_ms, old.counter42, observed_ms, r, fresh) == spec_advance(
            old.last_ms,
            old.counter42,
            observed_ms,
            r,
            w1_word(s1),
        ));
    }
}

/// An arguments step whose words the fast generator drew is the fast
/// arguments step.
proof fn lemma_w1_args_step(
    old: GeneratorState,
    built: GeneratorState,
    new: GeneratorState,
    ts_ms: u64,
    has_ts: bool,
    nanos: u64,
    has_nanos: bool,
    high: u64,
    low: u64,
    before: W1Rng,
    after: W1Rng,
)
    requires
        args_step_with(old, built, ts_ms, has_ts, nanos, has_nanos, high, low, before, after),
        before.state == old.w1_state,
        new == (GeneratorState {
            w1_state: after.state,
            w1_seeded: old.w1_seeded,
            last_ms: built.last_ms,
            counter42: built.counter42,
        }),
    ensures
        fast_args_step(old, new, ts_ms, has_ts, nanos, has_nanos, high, low),
{
    if has_ts || has_nanos {
        let (w1, w2) = choose|w1: u64, w2: u64|
            {
                let (ra, t62) = #[trigger] spec_args_bits(has_ts, has_nanos, nanos, w1, w2);
                &&& (high, low) == spec_build_words(ts_ms, ra, t62)
                &&& drew(before, after, w1, w2, !(has_ts && has_nanos))
            };
        let s1 = w1_next(old.w1_state);
        if has_ts && has_nanos {
            assert(w1 == w1_word(old.w1_state));
            assert(spec_args_bits(has_ts, has_nanos, nanos, w1, w2) == spec_args_bits(
                has_ts,
                has_nanos,
                nanos,
                w1,
                w1_word(s1),
            ));
        } else {
            let mid = choose|mid: W1Rng| #[trigger] before.draws(w1, mid) && mid.draws(w2, after);
            assert(mid.state == s1);
        }
    } else {
        lemma_w1_clock_step(old, built, new, ts_ms, high, low, before, after);
    }
}

/// Fills `rand_a` and `tail62` from the arguments and returns false, or returns
/// true (drawing nothing) when neither a timestamp nor nanoseconds was given.
fn extract_random_bits_with<R: WordRng>(
    has_ts: bool,
    has_nanos: bool,
    nanos: u64,
    rand_a: &mut u16,
    tail62: &mut u64,
    rng: &mut R,
) -> (r: bool)
    ensures
        r == !(has_ts || has_nanos),
        r ==> *final(rand_a) == *old(rand_a) && *final(tail62) == *old(tail62) && *final(rng)
            == *old(rng),
        !r ==> exists|w1: u64, w2: u64|
            {
                &&& (*final(rand_a), *final(tail62)) == #[trigger] spec_args_bits(
                    has_ts,
                    has_nanos,
                    nanos,
                    w1,
                    w2,
                )
                &&& drew(*old(rng), *final(rng), w1, w2, !(has_ts && has_nanos))
            },
{
    let ghost rng0 = *rng;
    if has_ts && has_nanos {
        *rand_a = (nanos & 0x0FFF) as u16;
        let w = rng.next_word();
        *tail62 = w & MASK62;
        assert(spec_args_bits(has_ts, has_nanos, nanos, w, 0) == (*rand_a, *tail62));
        assert(drew(rng0, *rng, w, 0, false));
        return false;
    }
    if has_ts || has_nanos {
        let c = rng.next_word();
        let ghost rng1 = *rng;
        let w = rng.next_word();
        let counter = c & MASK42;
        *rand_a = (counter >> 30u64) as u16;
        *tail62 = ((counter & MASK30) << 32u64) | ((#[verifier::truncate] (w as u32)) as u64);
        assert(spec_args_bits(has_ts, has_nanos, nanos, c, w) == (*rand_a, *tail62));
        assert(rng0.draws(c, rng1) && rng1.draws(w, *rng));
        assert(drew(rng0, *rng, c, w, true));
        return false;
    }
    true
}

/// Makes a UUID by one step of the monotonic clock read at `observed_ms`.
pub fn build_uuid7_monotonic<R: WordRng>(
    state: &mut GeneratorState,
    observed_ms: u64,
    high: &mut u64,
    low: &mut u64,
    rng: &mut R,
)
    requires
        old(state).wf(),
    ensures
        final(state).wf(),
        final(state).w1_state == old(state).w1_state,
        final(state).w1_seeded == old(state).w1_seeded,
        monotonic_step(*old(state), *final(state), observed_ms, *final(high), *final(low)),
        clock_step_with(
            *old(state),
            *final(state),
            observed_ms,
            *final(high),
            *final(low),
            *old(rng),
            *final(rng),
        ),
{
    let (mut ts, mut ra, mut t62) = (0u64, 0u16, 0u64);
    advance_monotonic_with(state, observed_ms, &mut ts, &mut ra, &mut t62, rng);
    let (hi, lo) = build_words(ts, ra, t62);
    *high = hi;
    *low = lo;
}

/// Makes a UUID from the arguments: at `ts_ms` when a timestamp or nanoseconds
/// was given, else by one step of the monotonic clock read at `ts_ms`.
fn build_uuid7_from_args<R: WordRng>(
    state: &mut GeneratorState,
    ts_ms: u64,
    has_ts: bool,
    nanos: u64,
    has_nanos: bool,
    high: &mut u64,
    low: &mut u64,
    rng: &mut R,
)
    requires
        old(state).wf(),
    ensures
        final(state).wf(),
        final(state).w1_state == old(state).w1_state,
        final(state).w1_seeded == old(state).w1_seeded,
        args_step(
            *old(state),
            *final(state),
            ts_ms,
            has_ts,
            nanos,
            has_nanos,
            *final(high),
            *final(low),
        ),
        args_step_with(
            *old(state),
            *final(state),
            ts_ms,
            has_ts,
            nanos,
            has_nanos,
            *final(high),
            *final(low),
            *old(rng),
            *final(rng),
        ),
{
    let (mut ra, mut t62) = (0u16, 0u64);
    let (hi, lo) = if extract_random_bits_with(has_ts, has_nanos, nanos, &mut ra, &mut t62, rng) {
        let mut ms = ts_ms;
        advance_monotonic_with(state, ts_ms, &mut ms, &mut ra, &mut t62, rng);
        build_words(ms, ra, t62)
    } else {
        build_words(ts_ms, ra, t62)
    };
    *high = hi;
    *low = lo;
}

/// The fast generator: the mixing generator's words.
pub struct Fast;

/// The secure generator: the ChaCha12 generator's words.
pub struct Secure;

impl Fast {
    /// Makes a UUID from the clock with the fast generator, seeding it first if
    /// need be; a clock that reads before the Unix epoch is an error, after
    /// the seeding.
    pub fn build_uuid7<K: MsClock>(
        state: &mut GeneratorState,
        clock: &mut K,
        high: &mut u64,
        low: &mut u64,
    ) -> (r: Result<
        (),
        UuidError,
    >)
        requires
            old(state).wf(),
        ensures
            final(state).wf(),
            old(state).w1_seeded ==> r is Ok || r == Err::<(), UuidError>(
                UuidError::ClockBeforeEpoch,
            ),
            r is Ok ==> final(state).w1_seeded && exists|observed_ms: u64|
                monotonic_step(*old(state), *final(state), observed_ms, *final(high), *final(low)),
            r is Err ==> *final(high) == *old(high) && *final(low) == *old(low),
            r is Err ==> (r == Err::<(), UuidError>(UuidError::RandomBytesUnavailable)
                && *final(state) == *old(state)) || (r == Err::<(), UuidError>(
                UuidError::ClockBeforeEpoch,
            ) && seeding_outcome(*old(state), *final(state), Ok(()))),
            r is Ok ==> exists|seeded: GeneratorState, observed_ms: u64|
                seeded_from(*old(state), seeded) && #[trigger] fast_clock_step(
                    seeded,
                    *final(state),
                    observed_ms,
                    *final(high),
                    *final(low),
                ),
            clock_build_outcome(
                *old(state),
                *final(state),
                *old(clock),
                *final(clock),
                r,
                *final(high),
                *final(low),
            ),
            r is Ok ==> exists|observed_ms: u64|
                #[trigger] reads_after_seeding(
                    *old(state),
                    *old(clock),
                    *final(clock),
                    Some(observed_ms),
                ) && exists|seeded: GeneratorState|
                    seeded_from(*old(state), seeded) && #[trigger] fast_clock_step(
                        seeded,
                        *final(state),
                        observed_ms,
                        *final(high),
                        *final(low),
                    ),
    {
        let ghost before = *state;
        let ghost clock0 = *clock;
        if let Err(e) = ensure_seeded(state, clock) {
            return Err(e);
        }
        let ghost told = *clock;
        let mut rng = W1Rng::new(state.w1_state);
        let observed_ms = match clock.now_ms() {
            Some(ms) => ms,
            None => {
                assert(clock_after_seeding(before, Ok(()), clock0, told) && told.reads(None, *clock));
                return Err(UuidError::ClockBeforeEpoch);
            },
        };
        assert(clock_after_seeding(before, Ok(()), clock0, told) && told.reads(
            Some(observed_ms),
            *clock,
        ));
        assert(reads_after_seeding(before, clock0, *clock, Some(observed_ms)));
        let ghost seeded = *state;
        let ghost rng0 = rng;
        build_uuid7_monotonic(state, observed_ms, high, low, &mut rng);
        let ghost built = *state;
        state.w1_state = rng.state;
        proof {
            lemma_w1_clock_step(seeded, built, *state, observed_ms, *high, *low, rng0, rng);
        }
        assert(monotonic_step(seeded, *state, observed_ms, *high, *low));
        assert(monotonic_step(before, *state, observed_ms, *high, *low));
        Ok(())
    }

    /// Makes a UUID from the arguments with the fast generator, seeding it
    /// first if need be.
    pub fn build_uuid7_with_args<K: MsClock>(
        state: &mut GeneratorState,
        clock: &mut K,
        ts_ms: u64,
        has_ts: bool,
        nanos: u64,
        has_nanos: bool,
        high: &mut u64,
        low: &mut u64,
    ) -> (r: Result<(), UuidError>)
        requires
            old(state).wf(),
        ensures
            final(state).wf(),
            old(state).w1_seeded ==> r is Ok,
            r is Ok ==> final(state).w1_seeded && args_step(
                *old(state),
                *final(state),
                ts_ms,
                has_ts,
                nanos,
                has_nanos,
                *final(high),
                *final(low),
            ),
            r is Err ==> r == Err::<(), UuidError>(UuidError::RandomBytesUnavailable) && *final(state) == *old(state) && *final(high) == *old(high) && *final(low) == *old(low),
            r is Ok ==> exists|seeded: GeneratorState|
                seeded_from(*old(state), seeded) && #[trigger] fast_args_step(
                    seeded,
                    *final(state),
                    ts_ms,
                    has_ts,
                    nanos,
                    has_nanos,
                    *final(high),
                    *final(low),
                ),
            r is Ok ==> clock_after_seeding(*old(state), Ok(()), *old(clock), *final(clock)),
            r is Err ==> *final(clock) == *old(clock),
    {
        if let Err(e) = ensure_seeded(state, clock) {
            return Err(e);
        }
        let mut rng = W1Rng::new(state.w1_state);
        let ghost seeded = *state;
        let ghost rng0 = rng;
        build_uuid7_from_args(state, ts_ms, has_ts, nanos, has_nanos, high, low, &mut rng);
        let ghost built = *state;
        state.w1_state = rng.state;
        proof {
            lemma_w1_args_step(
                seeded,
                built,
                *state,
                ts_ms,
                has_ts,
                nanos,
                has_nanos,
                *high,
                *low,
                rng0,
                rng,
            );
        }
        assert(args_step(seeded, *state, ts_ms, has_ts, nanos, has_nanos, *high, *low));
        Ok(())
    }
}

impl Secure {
    /// Makes a UUID from the clock with the ChaCha12 generator `rng`, seeding
    /// the fast generator first if need be, as the fast path does; a clock
    /// that reads before the Unix epoch is an error, after the seeding.
    pub fn build_uuid7<K: MsClock>(
        state: &mut GeneratorState,
        rng: &mut StdRng,
        clock: &mut K,
        high: &mut u64,
        low: &mut u64,
    ) -> (r: Result<(), UuidError>)
        requires
            old(state).wf(),
        ensures
            final(state).wf(),
            old(state).w1_seeded ==> r is Ok || r == Err::<(), UuidError>(
                UuidError::ClockBeforeEpoch,
            ),
            r is Ok ==> final(state).w1_seeded && exists|observed_ms: u64|
                monotonic_step(*old(state), *final(state), observed_ms, *final(high), *final(low)),
            r is Err ==> *final(high) == *old(high) && *final(low) == *old(low),
            r is Err ==> (r == Err::<(), UuidError>(UuidError::RandomBytesUnavailable)
                && *final(state) == *old(state)) || (r == Err::<(), UuidError>(
                UuidError::ClockBeforeEpoch,
            ) && seeding_outcome(*old(state), *final(state), Ok(()))),
            r is Ok ==> exists|seeded: GeneratorState|
                seeded_from(*old(state), seeded) && final(state).w1_state == #[trigger] seeded.w1_state,
            r is Ok && old(state).w1_seeded ==> final(state).w1_state == old(state).w1_state,
            clock_build_outcome(
                *old(state),
                *final(state),
                *old(clock),
                *final(clock),
                r,
                *final(high),
                *final(low),
            ),
    {
        let ghost before = *state;
        let ghost clock0 = *clock;
        if let Err(e) = ensure_seeded(state, clock) {
            return Err(e);
        }
        let ghost told = *clock;
        let observed_ms = match clock.now_ms() {
            Some(ms) => ms,
            None => {
                assert(clock_after_seeding(before, Ok(()), clock0, told) && told.reads(None, *clock));
                return Err(UuidError::ClockBeforeEpoch);
            },
        };
        assert(clock_after_seeding(before, Ok(()), clock0, told) && told.reads(
            Some(observed_ms),
            *clock,
        ));
        assert(reads_after_seeding(before, clock0, *clock, Some(observed_ms)));
        let ghost seeded = *state;
        build_uuid7_monotonic(state, observed_ms, high, low, rng);
        assert(monotonic_step(seeded, *state, observed_ms, *high, *low));
        assert(monotonic_step(before, *state, observed_ms, *high, *low));
        Ok(())
    }

    /// Makes a UUID from the arguments with the ChaCha12 generator `rng`.
    pub fn build_uuid7_with_args<K: MsClock>(
        state: &mut GeneratorState,
        rng: &mut StdRng,
        clock: &mut K,
        ts_ms: u64,
        has_ts: bool,
        nanos: u64,
        has_nanos: bool,
        high: &mut u64,
        low: &mut u64,
    ) -> (r: Result<(), UuidError>)
        requires
            old(state).wf(),
        ensures
            final(state).wf(),
            old(state).w1_seeded ==> r is Ok,
            r is Ok ==> final(state).w1_seeded && args_step(
                *old(state),
                *final(state),
                ts_ms,
                has_ts,
                nanos,
                has_nanos,
                *final(high),
                *final(low),
            ),
            r is Err ==> r == Err::<(), UuidError>(UuidError::RandomBytesUnavailable) && *final(state) == *old(state) && *final(high) == *old(high) && *final(low) == *old(low),
            r is Ok ==> exists|seeded: GeneratorState|
                seeded_from(*old(state), seeded) && final(state).w1_state == #[trigger] seeded.w1_state,
            r is Ok && old(state).w1_seeded ==> final(state).w1_state == old(state).w1_state,
            r is Ok ==> clock_after_seeding(*old(state), Ok(()), *old(clock), *final(clock)),
            r is Err ==> *final(clock) == *old(clock),
    {
        if let Err(e) = ensure_seeded(state, clock) {
            return Err(e);
        }
        let ghost seeded = *state;
        build_uuid7_from_args(state, ts_ms, has_ts, nanos, has_nanos, high, low, rng);
        assert(args_step(seeded, *state, ts_ms, has_ts, nanos, has_nanos, *high, *low));
        Ok(())
    }
}

/// The largest timestamp a version 7 UUID holds: 48 bits of milliseconds.
pub const MAX_TS_MS: u64 = 0xFFFF_FFFF_FFFF;

/// The largest timestamp in whole seconds.
pub const MAX_TS_S: u64 = 281_474_976_710;

/// The milliseconds of a timestamp given in seconds plus nanoseconds.
pub open spec fn timestamp_ms_of(ts_s: u64, nanos: u64, has_nanos: bool) -> int {
    ts_s * 1000 + if has_nanos {
        nanos as int / 1_000_000
    } else {
        0
    }
}

/// The millisecond timestamp for the arguments: the clock's reading when no
/// timestamp was given (an error should it read before the Unix epoch), else the
/// seconds (and nanoseconds) given, which must fit in 48 bits of milliseconds.
pub fn build_timestamp_ms<K: MsClock>(
    clock: &mut K,
    ts_s: u64,
    has_ts: bool,
    nanos: u64,
    has_nanos: bool,
) -> (r: Result<
    u64,
    UuidError,
>)
    ensures
        !has_ts ==> r is Ok || r == Err::<u64, UuidError>(UuidError::ClockBeforeEpoch),
        has_ts ==> (r is Ok <==> ts_s <= MAX_TS_S && timestamp_ms_of(ts_s, nanos, has_nanos)
            <= MAX_TS_MS),
        has_ts && r is Ok ==> r->Ok_0 == timestamp_ms_of(ts_s, nanos, has_nanos),
        has_ts && r is Err ==> r == Err::<u64, UuidError>(UuidError::TimestampTooLarge),
        has_ts ==> *final(clock) == *old(clock),
        !has_ts && r is Ok ==> old(clock).reads(Some(r->Ok_0), *final(clock)),
        !has_ts && r is Err ==> old(clock).reads(None, *final(clock)),
{
    if !has_ts {
        return match clock.now_ms() {
            Some(ms) => Ok(ms),
            None => Err(UuidError::ClockBeforeEpoch),
        };
    }
    if ts_s > MAX_TS_S {
        return Err(UuidError::TimestampTooLarge);
    }
    let mut ms = ts_s * 1000;
    if has_nanos {
        ms += nanos / 1_000_000;
    }
    if ms > MAX_TS_MS {
        return Err(UuidError::TimestampTooLarge);
    }
    Ok(ms)
}

/// The UUID of a later millisecond, or of the same millisecond with a larger
/// counter, is larger, whatever the low random bits.
proof fn lemma_step_words_order(ts1: u64, c1: u64, w1: u64, ts2: u64, c2: u64, w2: u64)
    requires
        ts1 <= ts2 <= MAX_TS_MS,
        c1 <= MASK42,
        c2 <= MASK42,
        ts1 < ts2 || c1 < c2,
    ensures
        ({
            let (ha, la) = spec_build_words(
                ts1,
                (c1 >> 30u64) as u16,
                ((c1 & MASK30) << 32u64) | ((w1 as u32) as u64),
            );
            let (hb, lb) = spec_build_words(
                ts2,
                (c2 >> 30u64) as u16,
                ((c2 & MASK30) << 32u64) | ((w2 as u32) as u64),
            );
            uuid_value(ha, la) < uuid_value(hb, lb)
        }),
{
    let ha = (ts1 << 16u64) | 0x7000u64 | (((c1 >> 30u64) as u16) as u64);
    let la = 0x8000_0000_0000_0000u64 | (((c1 & 0x3FFF_FFFFu64) << 32u64) | ((w1 as u32) as u64));
    let hb = (ts2 << 16u64) | 0x7000u64 | (((c2 >> 30u64) as u16) as u64);
    let lb = 0x8000_0000_0000_0000u64 | (((c2 & 0x3FFF_FFFFu64) << 32u64) | ((w2 as u32) as u64));
    assert(ts1 <= ts2 && ts2 <= 0xFFFF_FFFF_FFFF && c1 <= 0x3FF_FFFF_FFFF && c2 <= 0x3FF_FFFF_FFFF
        && (ts1 < ts2 || c1 < c2) ==> ((ts1 << 16u64) | 0x7000u64 | (((c1 >> 30u64) as u16) as u64))
        < ((ts2 << 16u64) | 0x7000u64 | (((c2 >> 30u64) as u16) as u64)) || (((ts1 << 16u64)
        | 0x7000u64 | (((c1 >> 30u64) as u16) as u64)) == ((ts2 << 16u64) | 0x7000u64 | (((c2
        >> 30u64) as u16) as u64)) && (0x8000_0000_0000_0000u64 | (((c1 & 0x3FFF_FFFFu64)
        << 32u64) | ((w1 as u32) as u64))) < (0x8000_0000_0000_0000u64 | (((c2 & 0x3FFF_FFFFu64)
        << 32u64) | ((w2 as u32) as u64))))) by (bit_vector);
    assert(ha < hb || (ha == hb && la < lb));
}

/// Monotonicity: two successive steps of the monotonic clock make strictly
/// increasing UUIDs, whatever the clock reads (even backwards) and whatever
/// the random words, as long as the milliseconds used fit in 48 bits.
pub proof fn lemma_monotonic(
    s0: GeneratorState,
    s1: GeneratorState,
    s2: GeneratorState,
    observed1: u64,
    observed2: u64,
    h1: u64,
    l1: u64,
    h2: u64,
    l2: u64,
)
    requires
        s0.wf(),
        monotonic_step(s0, s1, observed1, h1, l1),
        monotonic_step(s1, s2, observed2, h2, l2),
        s1.last_ms <= MAX_TS_MS,
        s2.last_ms <= MAX_TS_MS,
    ensures
        s1.wf(),
        s2.wf(),
        uuid_value(h1, l1) < uuid_value(h2, l2),
{
    let (r1, f1) = choose|r: u64, fresh: u64|
        {
            let (ms, c) = #[trigger] spec_advance(s0.last_ms, s0.counter42, observed1, r, fresh);
            let (ts, ra, t62) = step_outputs(ms, c, r);
            &&& s1.last_ms == ms
            &&& s1.counter42 == c
            &&& (h1, l1) == spec_build_words(ts, ra, t62)
        };
    let (r2, f2) = choose|r: u64, fresh: u64|
        {
            let (ms, c) = #[trigger] spec_advance(s1.last_ms, s1.counter42, observed2, r, fresh);
            let (ts, ra, t62) = step_outputs(ms, c, r);
            &&& s2.last_ms == ms
            &&& s2.counter42 == c
            &&& (h2, l2) == spec_build_words(ts, ra, t62)
        };
    lemma_mask42(f1);
    lemma_mask42(f2);
    assert(s1.wf());
    assert(s2.wf());
    assert(s1.last_ms < s2.last_ms || (s1.last_ms == s2.last_ms && s1.counter42 < s2.counter42));
    lemma_step_words_order(s1.last_ms, s1.counter42, r1, s2.last_ms, s2.counter42, r2);
}

/// Masking to 42 bits keeps within 42 bits.
proof fn lemma_mask42(x: u64)
    ensures
        x & MASK42 <= MASK42,
{
    assert(x & 0x3FF_FFFF_FFFF <= 0x3FF_FFFF_FFFF) by (bit_vector);
}

/// The layout of the halves `spec_build_words` makes: version 7, variant
/// `10`, and, for a timestamp within 48 bits, the timestamp, `rand_a` and
/// tail read back from their places.
pub proof fn lemma_version7_layout(ts_ms: u64, rand_a: u16, tail62: u64)
    requires
        rand_a < 0x1000,
        tail62 <= MASK62,
    ensures
        is_version7(spec_build_words(ts_ms, rand_a, tail62).0, spec_build_words(ts_ms, rand_a, tail62).1),
        ts_ms <= MAX_TS_MS ==> spec_build_words(ts_ms, rand_a, tail62).0 >> 16u64 == ts_ms,
        spec_build_words(ts_ms, rand_a, tail62).0 & 0xFFF == rand_a as u64,
        spec_build_words(ts_ms, rand_a, tail62).1 & MASK62 == tail62,
{
    let ra = rand_a as u64;
    assert(ra < 0x1000 && tail62 <= 0x3FFF_FFFF_FFFF_FFFF ==> ((((ts_ms << 16u64) | 0x7000u64 | ra)
        >> 12u64) & 0xF) == 7 && (0x8000_0000_0000_0000u64 | tail62) >> 62u64 == 2 && (((ts_ms
        << 16u64) | 0x7000u64 | ra) & 0xFFF) == ra && ((0x8000_0000_0000_0000u64 | tail62)
        & 0x3FFF_FFFF_FFFF_FFFF) == tail62) by (bit_vector);
    assert(ra < 0x1000 && ts_ms <= 0xFFFF_FFFF_FFFF ==> (((ts_ms << 16u64) | 0x7000u64 | ra)
        >> 16u64) == ts_ms) by (bit_vector);
}

/// The bits a step of the monotonic clock hands out fit their places.
proof fn lemma_step_output_bounds(c: u64, r: u64)
    requires
        c <= MASK42,
    ensures
        step_outputs(0, c, r).1 < 0x1000,
        step_outputs(0, c, r).2 <= MASK62,
{
    assert(c <= 0x3FF_FFFF_FFFF ==> ((c >> 30u64) as u16) < 0x1000 && (((c & 0x3FFF_FFFFu64)
        << 32u64) | ((r as u32) as u64)) <= 0x3FFF_FFFF_FFFF_FFFF) by (bit_vector);
}

/// Every UUID a step of the monotonic clock makes is a version 7 UUID whose
/// timestamp is the millisecond the step ends on, when that fits in 48 bits.
pub proof fn lemma_monotonic_step_version7(
    old: GeneratorState,
    new: GeneratorState,
    observed_ms: u64,
    high: u64,
    low: u64,
)
    requires
        old.wf(),
        monotonic_step(old, new, observed_ms, high, low),
    ensures
        is_version7(high, low),
        new.last_ms <= MAX_TS_MS ==> high >> 16u64 == new.last_ms,
{
    let (r, f) = choose|r: u64, fresh: u64|
        {
            let (ms, c) = #[trigger] spec_advance(old.last_ms, old.counter42, observed_ms, r, fresh);
            let (ts, ra, t62) = step_outputs(ms, c, r);
            &&& new.last_ms == ms
            &&& new.counter42 == c
            &&& (high, low) == spec_build_words(ts, ra, t62)
        };
    lemma_mask42(f);
    lemma_step_output_bounds(new.counter42, r);
    let (ts, ra, t62) = step_outputs(new.last_ms, new.counter42, r);
    lemma_version7_layout(ts, ra, t62);
}

/// Every UUID made from arguments is a version 7 UUID; with a timestamp it
/// carries that timestamp (within 48 bits), and with nanoseconds as well it
/// carries their low 12 bits as `rand_a`.
pub proof fn lemma_args_step_version7(
    old: GeneratorState,
    new: GeneratorState,
    ts_ms: u64,
    has_ts: bool,
    nanos: u64,
    has_nanos: bool,
    high: u64,
    low: u64,
)
    requires
        old.wf(),
        args_step(old, new, ts_ms, has_ts, nanos, has_nanos, high, low),
    ensures
        is_version7(high, low),
        (has_ts || has_nanos) && ts_ms <= MAX_TS_MS ==> high >> 16u64 == ts_ms,
        has_ts && has_nanos ==> high & 0xFFF == nanos & 0xFFF,
{
    if has_ts || has_nanos {
        let (w1, w2) = choose|w1: u64, w2: u64|
            {
                let (ra, t62) = #[trigger] spec_args_bits(has_ts, has_nanos, nanos, w1, w2);
                (high, low) == spec_build_words(ts_ms, ra, t62)
            };
        let (ra, t62) = spec_args_bits(has_ts, has_nanos, nanos, w1, w2);
        if has_ts && has_nanos {
            assert((nanos & 0x0FFF) < 0x1000 && (w1 & 0x3FFF_FFFF_FFFF_FFFF)
                <= 0x3FFF_FFFF_FFFF_FFFF && (((nanos & 0x0FFF) as u16) as u64) == nanos & 0xFFF)
                by (bit_vector);
        } else {
            let c = w1 & MASK42;
            lemma_mask42(w1);
            lemma_step_output_bounds(c, w2);
        }
        lemma_version7_layout(ts_ms, ra, t62);
    } else {
        lemma_monotonic_step_version7(old, new, ts_ms, high, low);
    }
}

/// Seeding is retried until it succeeds, and done once: after a failed
/// seeding the state is as it was and still unseeded, so the next seeding
/// asks the operating system again; once seeded, seeding succeeds and
/// changes nothing until the generator is reseeded.
pub proof fn lemma_seeding_retries(
    s0: GeneratorState,
    s1: GeneratorState,
    r1: Result<(), UuidError>,
    s2: GeneratorState,
    r2: Result<(), UuidError>,
)
    requires
        seeding_outcome(s0, s1, r1),
        seeding_outcome(s1, s2, r2),
    ensures
        r1 is Err ==> s1 == s0 && !s1.w1_seeded,
        r1 is Err && r2 is Ok ==> s2.w1_seeded && s2.last_ms == s0.last_ms && s2.counter42
            == s0.counter42,
        r1 is Ok ==> s1.w1_seeded && r2 is Ok && s2 == s1,
{
}

/// The timestamp a step of the monotonic clock gives: at least the clock's
/// reading, and at most the later of the reading and one past the last
/// timestamp; within 48 bits it is the UUID's timestamp field.
pub proof fn lemma_clock_timestamp_bound(
    old: GeneratorState,
    new: GeneratorState,
    observed_ms: u64,
    high: u64,
    low: u64,
)
    requires
        old.wf(),
        old.last_ms < u64::MAX,
        monotonic_step(old, new, observed_ms, high, low),
    ensures
        observed_ms <= new.last_ms,
        new.last_ms <= if observed_ms > old.last_ms + 1 {
            observed_ms as int
        } else {
            old.last_ms + 1
        },
        new.last_ms <= MAX_TS_MS ==> high >> 16u64 == new.last_ms,
{
    lemma_monotonic_step_version7(old, new, observed_ms, high, low);
}

/// One step of the monotonic clock in detail: the (millisecond, counter) pair
/// strictly increases; a clock reading past the last millisecond is taken as
/// it is; otherwise the counter advances by 1 to 16 within the millisecond, or
/// the millisecond advances by one, which happens only with the counter within
/// 16 of its 42-bit limit.
pub proof fn lemma_clock_step_detail(
    old: GeneratorState,
    new: GeneratorState,
    observed_ms: u64,
    high: u64,
    low: u64,
)
    requires
        old.wf(),
        old.last_ms < u64::MAX,
        monotonic_step(old, new, observed_ms, high, low),
    ensures
        new.wf(),
        new.last_ms > old.last_ms || (new.last_ms == old.last_ms && new.counter42
            > old.counter42),
        observed_ms > old.last_ms ==> new.last_ms == observed_ms,
        observed_ms <= old.last_ms ==> (new.last_ms == old.last_ms && 1 <= new.counter42
            - old.counter42 <= 16) || (new.last_ms == old.last_ms + 1 && old.counter42 > MASK42
            - 16),
{
    let (r, f) = choose|r: u64, fresh: u64|
        {
            let (ms, c) = #[trigger] spec_advance(old.last_ms, old.counter42, observed_ms, r, fresh);
            let (ts, ra, t62) = step_outputs(ms, c, r);
            &&& new.last_ms == ms
            &&& new.counter42 == c
            &&& (high, low) == spec_build_words(ts, ra, t62)
        };
    lemma_mask42(f);
    assert(((r >> 32u64) & 0x0f) <= 15) by (bit_vector);
}

/// A UUID made from the clock (`Fast::build_uuid7`, `Secure::build_uuid7`)
/// is stamped with the clock's reading taken in the call: its timestamp field
/// is at least that reading, and at most the later of the reading and one
/// past the previous timestamp, whatever the clock reads.
pub proof fn lemma_clock_uuid_stamped<K: MsClock>(
    s0: GeneratorState,
    s1: GeneratorState,
    clock_before: K,
    clock_after: K,
    r: Result<(), UuidError>,
    high: u64,
    low: u64,
)
    requires
        s0.wf(),
        s0.last_ms < u64::MAX,
        clock_build_outcome(s0, s1, clock_before, clock_after, r, high, low),
        r is Ok,
        s1.last_ms <= MAX_TS_MS,
    ensures
        exists|reading: u64|
            {
                &&& #[trigger] reads_after_seeding(s0, clock_before, clock_after, Some(reading))
                &&& reading <= high >> 16u64
                &&& high >> 16u64 <= if reading > s0.last_ms + 1 {
                    reading as int
                } else {
                    s0.last_ms + 1
                }
            },
{
    let reading = choose|observed_ms: u64|
        #[trigger] reads_after_seeding(s0, clock_before, clock_after, Some(observed_ms))
            && monotonic_step(s0, s1, observed_ms, high, low);
    lemma_clock_timestamp_bound(s0, s1, reading, high, low);
}

} // verus!
