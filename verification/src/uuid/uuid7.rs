//! `uuid7()`: how its arguments bind and are read, which generator makes the
//! UUID, from which timestamp, and which error it reports.

use vstd::prelude::*;
use rand::rngs::StdRng;
use crate::model::{digits_value, uuid_value};
use crate::parse::{parse_u64_arg, u64_arg_result, U64Param};
use crate::python::args::{arg_value, same_text, ArgValue};
use crate::python::exceptions::UuidError;
use crate::python::py_3_14_plus::uuid_int_from_parts;
use crate::rng::{
    build_timestamp_ms, clock_after_seeding, fast_args_step, fast_clock_step, is_version7,
    lemma_args_step_version7, lemma_clock_timestamp_bound, lemma_monotonic,
    lemma_monotonic_step_version7, monotonic_step, reads_after_seeding, seeded_from,
    seeding_outcome, timestamp_ms_of, Fast, GeneratorState, MsClock, Secure, MAX_TS_MS, MAX_TS_S,
};

verus! {

/// One more than the largest number of nanoseconds accepted.
pub const MAX_NANOS: u64 = 1_000_000_000;

/// Whether the nanoseconds, if given, lie below one second.
pub open spec fn nanos_ok(nanos: Option<u64>) -> bool {
    match nanos {
        Some(n) => n < MAX_NANOS,
        None => true,
    }
}

/// The nanoseconds given, or 0.
pub open spec fn nanos_value(nanos: Option<u64>) -> u64 {
    match nanos {
        Some(n) => n,
        None => 0,
    }
}

/// Whether the timestamp, if given, fits 48 bits of milliseconds.
pub open spec fn timestamp_ok(timestamp: Option<u64>, nanos: Option<u64>) -> bool {
    match timestamp {
        Some(t) => t <= MAX_TS_S && timestamp_ms_of(t, nanos_value(nanos), nanos is Some)
            <= MAX_TS_MS,
        None => true,
    }
}

/// What `uuid7()` gives for a timestamp and nanoseconds: the errors it reports
/// and when, that it leaves the state as it was on an error (a clock read
/// before the Unix epoch, where it is read, may come after the seeding), that
/// it succeeds once the generator is seeded, the arguments are in range and
/// the clock, where read, is past the epoch, and that what
/// it makes is a version 7 UUID carrying the timestamp and, with it, the low
/// 12 bits of the nanoseconds; without either it steps the monotonic clock,
/// and with one of them it leaves the clock alone. The fast generator draws
/// its words from the seeded state exactly and stores its state after them;
/// the secure generator leaves the fast generator's state as seeding left it.
pub open spec fn parts_outcome(
    before: GeneratorState,
    after: GeneratorState,
    timestamp: Option<u64>,
    nanos: Option<u64>,
    secure: bool,
    r: Result<(u64, u64), UuidError>,
) -> bool {
    &&& !nanos_ok(nanos) ==> r == Err::<(u64, u64), UuidError>(UuidError::NanosOutOfRange)
    &&& nanos_ok(nanos) && !timestamp_ok(timestamp, nanos) ==> r == Err::<(u64, u64), UuidError>(
        UuidError::TimestampTooLarge,
    )
    &&& r is Err && r != Err::<(u64, u64), UuidError>(UuidError::ClockBeforeEpoch) ==> after
        == before
    &&& r == Err::<(u64, u64), UuidError>(UuidError::ClockBeforeEpoch) ==> timestamp is None && (
    after == before || seeding_outcome(before, after, Ok(())))
    &&& r == Err::<(u64, u64), UuidError>(UuidError::RandomBytesUnavailable) ==> !before.w1_seeded
    &&& r is Err ==> r == Err::<(u64, u64), UuidError>(UuidError::NanosOutOfRange) || r == Err::<
        (u64, u64),
        UuidError,
    >(UuidError::TimestampTooLarge) || r == Err::<(u64, u64), UuidError>(
        UuidError::RandomBytesUnavailable,
    ) || r == Err::<(u64, u64), UuidError>(UuidError::ClockBeforeEpoch)
    &&& before.w1_seeded && nanos_ok(nanos) && timestamp_ok(timestamp, nanos) ==> r is Ok || (
    timestamp is None && r == Err::<(u64, u64), UuidError>(UuidError::ClockBeforeEpoch))
    &&& r matches Ok((hi, lo)) ==> is_version7(hi, lo)
    &&& r matches Ok((hi, lo)) ==> (timestamp matches Some(t) ==> hi >> 16u64 == timestamp_ms_of(
        t,
        nanos_value(nanos),
        nanos is Some,
    ))
    &&& r matches Ok((hi, lo)) ==> (timestamp is Some ==> (nanos matches Some(n) ==> hi & 0xFFF
        == n & 0xFFF))
    &&& r is Ok && timestamp is None && nanos is None ==> exists|observed_ms: u64|
        monotonic_step(before, after, observed_ms, r.unwrap().0, r.unwrap().1)
    &&& r is Ok ==> (timestamp is Some || nanos is Some ==> after.last_ms == before.last_ms
        && after.counter42 == before.counter42)
    &&& r is Ok && !secure ==> exists|seeded: GeneratorState, ts_ms: u64|
        {
            &&& seeded_from(before, seeded)
            &&& (timestamp matches Some(t) ==> ts_ms == timestamp_ms_of(
                t,
                nanos_value(nanos),
                nanos is Some,
            ))
            &&& #[trigger] fast_args_step(
                seeded,
                after,
                ts_ms,
                timestamp is Some,
                nanos_value(nanos),
                nanos is Some,
                r.unwrap().0,
                r.unwrap().1,
            )
        }
    &&& r is Ok && secure ==> exists|seeded: GeneratorState|
        seeded_from(before, seeded) && after.w1_state == #[trigger] seeded.w1_state
}

/// The clock went from `before` to `after` by one reading that gave
/// `reading`, then by being told of any seeding of `state`.
pub open spec fn reads_before_seeding<K: MsClock>(
    state: GeneratorState,
    before: K,
    after: K,
    reading: Option<u64>,
) -> bool {
    exists|read: K| #[trigger] before.reads(reading, read) && clock_after_seeding(
        state,
        Ok(()),
        read,
        after,
    )
}

/// How `uuid7()` for a timestamp and nanoseconds uses the clock: with a
/// timestamp it is only told of any seeding; without one it is read once, and
/// the UUID is stamped with that reading: with nanoseconds its timestamp
/// field is the reading, without them the monotonic clock steps at the
/// reading (read after the seeding in the secure mode, before it otherwise).
pub open spec fn parts_clock_outcome<K: MsClock>(
    before: GeneratorState,
    after: GeneratorState,
    timestamp: Option<u64>,
    nanos: Option<u64>,
    secure: bool,
    r: Result<(u64, u64), UuidError>,
    clock_before: K,
    clock_after: K,
) -> bool {
    &&& r is Ok && timestamp is Some ==> clock_after_seeding(
        before,
        Ok(()),
        clock_before,
        clock_after,
    )
    &&& r is Ok && timestamp is None && nanos is Some ==> exists|reading: u64|
        #[trigger] reads_before_seeding(before, clock_before, clock_after, Some(reading)) && (
        reading <= MAX_TS_MS ==> r.unwrap().0 >> 16u64 == reading)
    &&& r is Ok && timestamp is None && nanos is None && secure ==> exists|reading: u64|
        #[trigger] reads_after_seeding(before, clock_before, clock_after, Some(reading))
            && monotonic_step(before, after, reading, r.unwrap().0, r.unwrap().1)
    &&& r is Ok && timestamp is None && nanos is None && !secure ==> exists|reading: u64|
        #[trigger] reads_before_seeding(before, clock_before, clock_after, Some(reading))
            && monotonic_step(before, after, reading, r.unwrap().0, r.unwrap().1)
}

/// A step of the monotonic clock is what `uuid7()` gives without a timestamp
/// or nanoseconds.
proof fn lemma_clock_parts_outcome(
    before: GeneratorState,
    after: GeneratorState,
    seeded: GeneratorState,
    observed_ms: u64,
    hi: u64,
    lo: u64,
)
    requires
        before.wf(),
        monotonic_step(before, after, observed_ms, hi, lo),
        seeded_from(before, seeded),
        after.w1_state == seeded.w1_state,
    ensures
        parts_outcome(before, after, None, None, true, Ok((hi, lo))),
{
    lemma_monotonic_step_version7(before, after, observed_ms, hi, lo);
    let r = Ok::<(u64, u64), UuidError>((hi, lo));
    assert(r.unwrap() == (hi, lo));
    assert(monotonic_step(before, after, observed_ms, r.unwrap().0, r.unwrap().1));
}

/// Makes a UUID for `uuid7(timestamp, nanos, mode)` once the arguments are
/// read: `timestamp` in seconds and `nanos` each as given (`None` when absent
/// or None), and whether the secure generator was asked for. With neither
/// timestamp nor nanoseconds the secure generator steps the monotonic clock;
/// otherwise the nanoseconds must lie below one second and the timestamp fit
/// 48 bits of milliseconds.
pub fn uuid7_parts<K: MsClock>(
    state: &mut GeneratorState,
    secure_rng: &mut StdRng,
    clock: &mut K,
    timestamp: Option<u64>,
    nanos: Option<u64>,
    secure: bool,
) -> (r: Result<(u64, u64), UuidError>)
    requires
        old(state).wf(),
    ensures
        final(state).wf(),
        parts_outcome(*old(state), *final(state), timestamp, nanos, secure, r),
        parts_clock_outcome(
            *old(state),
            *final(state),
            timestamp,
            nanos,
            secure,
            r,
            *old(clock),
            *final(clock),
        ),
{
    let (mut hi, mut lo) = (0u64, 0u64);
    let ghost clock0 = *clock;
    if secure && timestamp.is_none() && nanos.is_none() {
        let ghost before = *state;
        return match Secure::build_uuid7(state, secure_rng, clock, &mut hi, &mut lo) {
            Ok(()) => {
                proof {
                    let reading = choose|observed_ms: u64|
                        #[trigger] reads_after_seeding(before, clock0, *clock, Some(observed_ms))
                            && monotonic_step(before, *state, observed_ms, hi, lo);
                    let r = Ok::<(u64, u64), UuidError>((hi, lo));
                    assert(r.unwrap() == (hi, lo));
                    assert(reads_after_seeding(before, clock0, *clock, Some(reading))
                        && monotonic_step(before, *state, reading, r.unwrap().0, r.unwrap().1));
                    let obs = choose|observed_ms: u64|
                        monotonic_step(before, *state, observed_ms, hi, lo);
                    let seeded = choose|seeded: GeneratorState|
                        seeded_from(before, seeded) && state.w1_state == #[trigger] seeded.w1_state;
                    lemma_clock_parts_outcome(before, *state, seeded, obs, hi, lo);
                }
                Ok((hi, lo))
            },
            Err(e) => Err(e),
        };
    }
    let (has_ts, ts_s) = match timestamp {
        Some(t) => (true, t),
        None => (false, 0),
    };
    let (has_nanos, n) = match nanos {
        Some(v) => (true, v),
        None => (false, 0),
    };
    if has_nanos && n >= MAX_NANOS {
        return Err(UuidError::NanosOutOfRange);
    }
    let timestamp_ms = match build_timestamp_ms(clock, ts_s, has_ts, n, has_nanos) {
        Ok(v) => v,
        Err(e) => {
            return Err(e);
        },
    };
    let ghost before = *state;
    let ghost clock_read = *clock;
    let res = if secure {
        Secure::build_uuid7_with_args(
            state,
            secure_rng,
            clock,
            timestamp_ms,
            has_ts,
            n,
            has_nanos,
            &mut hi,
            &mut lo,
        )
    } else {
        Fast::build_uuid7_with_args(
            state,
            clock,
            timestamp_ms,
            has_ts,
            n,
            has_nanos,
            &mut hi,
            &mut lo,
        )
    };
    match res {
        Ok(()) => {
            proof {
                lemma_args_step_version7(
                    before,
                    *state,
                    timestamp_ms,
                    has_ts,
                    n,
                    has_nanos,
                    hi,
                    lo,
                );
                let r = Ok::<(u64, u64), UuidError>((hi, lo));
                assert(r.unwrap() == (hi, lo));
                if !has_ts {
                    assert(clock0.reads(Some(timestamp_ms), clock_read) && clock_after_seeding(
                        before,
                        Ok(()),
                        clock_read,
                        *clock,
                    ));
                    assert(reads_before_seeding(before, clock0, *clock, Some(timestamp_ms)));
                    if !has_nanos {
                        assert(monotonic_step(before, *state, timestamp_ms, r.unwrap().0, r.unwrap().1));
                    }
                }
                if !secure {
                    let seeded = choose|seeded: GeneratorState|
                        seeded_from(before, seeded) && #[trigger] fast_args_step(
                            seeded,
                            *state,
                            timestamp_ms,
                            has_ts,
                            n,
                            has_nanos,
                            hi,
                            lo,
                        );
                    let r = Ok::<(u64, u64), UuidError>((hi, lo));
                    assert(r.unwrap() == (hi, lo));
                    assert(has_ts == (timestamp is Some) && n == nanos_value(nanos) && has_nanos
                        == (nanos is Some));
                    assert(fast_args_step(
                        seeded,
                        *state,
                        timestamp_ms,
                        timestamp is Some,
                        nanos_value(nanos),
                        nanos is Some,
                        r.unwrap().0,
                        r.unwrap().1,
                    ));
                }
            }
            Ok((hi, lo))
        },
        Err(e) => Err(e),
    }
}


/// Which argument fills each parameter of `uuid7()`: an index into the
/// arguments, the positional ones first and then those given by keyword.
#[derive(Clone, Copy, Debug, PartialEq, Eq, Structural)]
pub struct Uuid7Binding {
    pub timestamp: Option<usize>,
    pub nanos: Option<usize>,
    pub mode: Option<usize>,
}

/// The parameters filled by `nargs` positional arguments.
pub open spec fn positional_binding(nargs: nat) -> Uuid7Binding {
    Uuid7Binding {
        timestamp: if nargs >= 1 { Some(0usize) } else { None },
        nanos: if nargs >= 2 { Some(1usize) } else { None },
        mode: if nargs >= 3 { Some(2usize) } else { None },
    }
}

/// How `uuid7()` binds `nargs` positional arguments and then the keywords
/// `kwnames`, in order: a keyword names one of `timestamp`, `nanos` and
/// `mode`, and takes that parameter over from whatever filled it before.
pub open spec fn uuid7_binding(nargs: nat, kwnames: Seq<&str>) -> Result<Uuid7Binding, UuidError>
    decreases kwnames.len(),
{
    if kwnames.len() == 0 {
        if nargs > 3 {
            Err(UuidError::Uuid7TooManyPositional)
        } else {
            Ok(positional_binding(nargs))
        }
    } else {
        match uuid7_binding(nargs, kwnames.drop_last()) {
            Err(e) => Err(e),
            Ok(b) => {
                let k = kwnames.len() - 1;
                let at = (nargs + k) as usize;
                let name = kwnames.last()@;
                if name == "timestamp"@ {
                    Ok(Uuid7Binding { timestamp: Some(at), nanos: b.nanos, mode: b.mode })
                } else if name == "nanos"@ {
                    Ok(Uuid7Binding { timestamp: b.timestamp, nanos: Some(at), mode: b.mode })
                } else if name == "mode"@ {
                    Ok(Uuid7Binding { timestamp: b.timestamp, nanos: b.nanos, mode: Some(at) })
                } else {
                    Err(UuidError::Uuid7UnexpectedKeyword(k as usize))
                }
            },
        }
    }
}

/// Once binding a prefix of the keywords fails, binding them all fails the
/// same way.
proof fn lemma_binding_error_stays(nargs: nat, kwnames: Seq<&str>, i: int)
    requires
        0 <= i <= kwnames.len(),
        uuid7_binding(nargs, kwnames.take(i)) is Err,
    ensures
        uuid7_binding(nargs, kwnames) == uuid7_binding(nargs, kwnames.take(i)),
    decreases kwnames.len() - i,
{
    if i < kwnames.len() {
        assert(kwnames.take(i + 1).drop_last() =~= kwnames.take(i));
        lemma_binding_error_stays(nargs, kwnames, i + 1);
    } else {
        assert(kwnames.take(i) =~= kwnames);
    }
}

/// Binds the arguments of a `uuid7()` call: `nargs` positional ones, then one
/// for each keyword of `kwnames`.
pub fn bind_uuid7_args(nargs: usize, kwnames: &[&str]) -> (r: Result<Uuid7Binding, UuidError>)
    requires
        nargs + kwnames@.len() <= usize::MAX,
    ensures
        r == uuid7_binding(nargs as nat, kwnames@),
        r matches Ok(b) ==> (b.timestamp matches Some(k) ==> k < nargs + kwnames@.len()) && (
        b.nanos matches Some(k) ==> k < nargs + kwnames@.len()) && (b.mode matches Some(k) ==> k
            < nargs + kwnames@.len()),
{
    proof {
        assert(kwnames@.take(0) =~= Seq::<&str>::empty());
    }
    if nargs > 3 {
        proof {
            lemma_binding_error_stays(nargs as nat, kwnames@, 0);
        }
        return Err(UuidError::Uuid7TooManyPositional);
    }
    let mut b = Uuid7Binding {
        timestamp: if nargs >= 1 { Some(0) } else { None },
        nanos: if nargs >= 2 { Some(1) } else { None },
        mode: if nargs >= 3 { Some(2) } else { None },
    };
    let mut i: usize = 0;
    while i < kwnames.len()
        invariant
            i <= kwnames@.len(),
            nargs <= 3,
            nargs + kwnames@.len() <= usize::MAX,
            uuid7_binding(nargs as nat, kwnames@.take(i as int)) == Ok::<Uuid7Binding, UuidError>(
                b,
            ),
            b.timestamp matches Some(k) ==> k < nargs + i,
            b.nanos matches Some(k) ==> k < nargs + i,
            b.mode matches Some(k) ==> k < nargs + i,
        decreases kwnames@.len() - i,
    {
        let name = kwnames[i];
        let at = nargs + i;
        proof {
            assert(kwnames@.take(i + 1).drop_last() =~= kwnames@.take(i as int));
            assert(kwnames@.take(i + 1).last() == name);
        }
        if same_text(name, "timestamp") {
            b = Uuid7Binding { timestamp: Some(at), nanos: b.nanos, mode: b.mode };
        } else if same_text(name, "nanos") {
            b = Uuid7Binding { timestamp: b.timestamp, nanos: Some(at), mode: b.mode };
        } else if same_text(name, "mode") {
            b = Uuid7Binding { timestamp: b.timestamp, nanos: b.nanos, mode: Some(at) };
        } else {
            proof {
                lemma_binding_error_stays(nargs as nat, kwnames@, i + 1);
            }
            return Err(UuidError::Uuid7UnexpectedKeyword(i));
        }
        i += 1;
    }
    proof {
        assert(kwnames@.take(i as int) =~= kwnames@);
    }
    Ok(b)
}

/// What the `mode` argument asks for: `true` for the secure generator.
pub open spec fn mode_result(value: Option<ArgValue>) -> Result<bool, UuidError> {
    match value {
        None => Ok(false),
        Some(v) => if v.is_none {
            Ok(false)
        } else {
            match v.text {
                None => Err(UuidError::ModeNotStr),
                Some(t) => if t@ == "fast"@ {
                    Ok(false)
                } else if t@ == "secure"@ {
                    Ok(true)
                } else {
                    Err(UuidError::ModeUnknown)
                },
            }
        },
    }
}

/// Reads the `mode` argument of `uuid7()`: `'fast'`, `'secure'`, or None.
pub fn parse_mode(value: Option<&ArgValue>) -> (r: Result<bool, UuidError>)
    ensures
        r == mode_result(arg_value(value)),
{
    match value {
        None => Ok(false),
        Some(v) => if v.is_none {
            Ok(false)
        } else {
            match &v.text {
                None => Err(UuidError::ModeNotStr),
                Some(t) => if same_text(t.as_str(), "fast") {
                    Ok(false)
                } else if same_text(t.as_str(), "secure") {
                    Ok(true)
                } else {
                    Err(UuidError::ModeUnknown)
                },
            }
        },
    }
}

/// What a `uuid7()` call asks for once its arguments are read.
#[derive(Clone, Copy, Debug, PartialEq, Eq, Structural)]
pub enum Uuid7Request {
    /// No argument at all: the fast generator steps the monotonic clock.
    Clock,
    /// The timestamp and nanoseconds given (`None` when absent or None), and
    /// whether the secure generator was asked for.
    Parts { timestamp: Option<u64>, nanos: Option<u64>, secure: bool },
}

/// The argument at `at`, if a parameter is bound.
pub open spec fn arg_at(args: Seq<ArgValue>, at: Option<usize>) -> Option<ArgValue> {
    match at {
        Some(k) => Some(args[k as int]),
        None => None,
    }
}

/// What a `uuid7()` call with `args` (the positional ones, then one for each
/// keyword of `kwnames`) asks for: its parameters are bound, then `mode`, the
/// timestamp and the nanoseconds are read, in that order, and the first that
/// fails gives the error.
pub open spec fn uuid7_request(args: Seq<ArgValue>, kwnames: Seq<&str>) -> Result<
    Uuid7Request,
    UuidError,
> {
    let nargs = (args.len() - kwnames.len()) as nat;
    if args.len() == 0 {
        Ok(Uuid7Request::Clock)
    } else {
        match uuid7_binding(nargs, kwnames) {
            Err(e) => Err(e),
            Ok(b) => match mode_result(arg_at(args, b.mode)) {
                Err(e) => Err(e),
                Ok(secure) => match u64_arg_result(arg_at(args, b.timestamp), U64Param::Timestamp) {
                    Err(e) => Err(e),
                    Ok(timestamp) => match u64_arg_result(arg_at(args, b.nanos), U64Param::Nanos) {
                        Err(e) => Err(e),
                        Ok(nanos) => Ok(Uuid7Request::Parts { timestamp, nanos, secure }),
                    },
                },
            },
        }
    }
}

/// Reads the arguments of a `uuid7()` call: `args` holds the positional ones,
/// then one for each keyword of `kwnames`.
pub fn bind_uuid7_request(args: &[ArgValue], kwnames: &[&str]) -> (r: Result<
    Uuid7Request,
    UuidError,
>)
    requires
        kwnames@.len() <= args@.len(),
    ensures
        r == uuid7_request(args@, kwnames@),
{
    if args.len() == 0 {
        return Ok(Uuid7Request::Clock);
    }
    let nargs = args.len() - kwnames.len();
    let b = match bind_uuid7_args(nargs, kwnames) {
        Ok(b) => b,
        Err(e) => {
            return Err(e);
        },
    };
    let mode = match b.mode {
        Some(k) => Some(&args[k]),
        None => None,
    };
    let secure = match parse_mode(mode) {
        Ok(v) => v,
        Err(e) => {
            return Err(e);
        },
    };
    let ts = match b.timestamp {
        Some(k) => Some(&args[k]),
        None => None,
    };
    let timestamp = match parse_u64_arg(ts, U64Param::Timestamp) {
        Ok(v) => v,
        Err(e) => {
            return Err(e);
        },
    };
    let ns = match b.nanos {
        Some(k) => Some(&args[k]),
        None => None,
    };
    let nanos = match parse_u64_arg(ns, U64Param::Nanos) {
        Ok(v) => v,
        Err(e) => {
            return Err(e);
        },
    };
    Ok(Uuid7Request::Parts { timestamp, nanos, secure })
}

/// What `uuid7()` gives with no argument: a version 7 UUID from a step of the
/// monotonic clock with the fast generator's words, once the generator is
/// seeded, or the error of seeding it with the state as it was, or, after the
/// seeding, the error of a clock that reads before the Unix epoch.
pub open spec fn clock_outcome(
    before: GeneratorState,
    after: GeneratorState,
    r: Result<(u64, u64), UuidError>,
) -> bool {
    &&& before.w1_seeded ==> r is Ok || r == Err::<(u64, u64), UuidError>(
        UuidError::ClockBeforeEpoch,
    )
    &&& r matches Ok((hi, lo)) ==> after.w1_seeded && is_version7(hi, lo) && exists|
        observed_ms: u64,
    | monotonic_step(before, after, observed_ms, hi, lo)
    &&& r is Err ==> (r == Err::<(u64, u64), UuidError>(UuidError::RandomBytesUnavailable)
        && after == before) || (r == Err::<(u64, u64), UuidError>(UuidError::ClockBeforeEpoch)
        && seeding_outcome(before, after, Ok(())))
    &&& r is Ok ==> exists|seeded: GeneratorState, observed_ms: u64|
        seeded_from(before, seeded) && #[trigger] fast_clock_step(
            seeded,
            after,
            observed_ms,
            r.unwrap().0,
            r.unwrap().1,
        )
}

/// What a `uuid7()` call with `args` and `kwnames` gives.
pub open spec fn uuid7_outcome(
    before: GeneratorState,
    after: GeneratorState,
    args: Seq<ArgValue>,
    kwnames: Seq<&str>,
    r: Result<(u64, u64), UuidError>,
) -> bool {
    match uuid7_request(args, kwnames) {
        Err(e) => r == Err::<(u64, u64), UuidError>(e) && after == before,
        Ok(Uuid7Request::Clock) => clock_outcome(before, after, r),
        Ok(Uuid7Request::Parts { timestamp, nanos, secure }) => parts_outcome(
            before,
            after,
            timestamp,
            nanos,
            secure,
            r,
        ),
    }
}

/// `uuid7(timestamp=None, nanos=None, mode=None)`: the two halves of a new
/// version 7 UUID. `args` holds the positional arguments, then one for each
/// keyword of `kwnames`; `secure_rng` is the ChaCha12 generator of the calling
/// thread, and `clock` the platform's millisecond clock.
pub fn uuid7<K: MsClock>(
    state: &mut GeneratorState,
    secure_rng: &mut StdRng,
    clock: &mut K,
    args: &[ArgValue],
    kwnames: &[&str],
) -> (r: Result<(u64, u64), UuidError>)
    requires
        old(state).wf(),
        kwnames@.len() <= args@.len(),
    ensures
        final(state).wf(),
        uuid7_outcome(*old(state), *final(state), args@, kwnames@, r),
{
    match bind_uuid7_request(args, kwnames) {
        Err(e) => Err(e),
        Ok(Uuid7Request::Clock) => {
            let ghost before = *state;
            let (mut hi, mut lo) = (0u64, 0u64);
            match Fast::build_uuid7(state, clock, &mut hi, &mut lo) {
                Ok(()) => {
                    proof {
                        let obs = choose|observed_ms: u64|
                            monotonic_step(before, *state, observed_ms, hi, lo);
                        lemma_monotonic_step_version7(before, *state, obs, hi, lo);
                        let (seeded, o) = choose|seeded: GeneratorState, o: u64|
                            seeded_from(before, seeded) && #[trigger] fast_clock_step(
                                seeded,
                                *state,
                                o,
                                hi,
                                lo,
                            );
                        let r = Ok::<(u64, u64), UuidError>((hi, lo));
                        assert(r.unwrap() == (hi, lo));
                        assert(fast_clock_step(seeded, *state, o, r.unwrap().0, r.unwrap().1));
                    }
                    Ok((hi, lo))
                },
                Err(e) => Err(e),
            }
        },
        Ok(Uuid7Request::Parts { timestamp, nanos, secure }) => uuid7_parts(
            state,
            secure_rng,
            clock,
            timestamp,
            nanos,
            secure,
        ),
    }
}

/// `uuid7_int(timestamp=None, nanos=None, mode=None)`: the integer form, as
/// five base-2^30 digits least significant first, of the UUID `uuid7()` would
/// make for the same arguments.
pub fn uuid7_int<K: MsClock>(
    state: &mut GeneratorState,
    secure_rng: &mut StdRng,
    clock: &mut K,
    args: &[ArgValue],
    kwnames: &[&str],
) -> (r: Result<[u32; 5], UuidError>)
    requires
        old(state).wf(),
        kwnames@.len() <= args@.len(),
    ensures
        final(state).wf(),
        exists|words: Result<(u64, u64), UuidError>|
            {
                &&& #[trigger] uuid7_outcome(*old(state), *final(state), args@, kwnames@, words)
                &&& match (words, r) {
                    (Ok((hi, lo)), Ok(digits)) => digits_value(digits@) == uuid_value(hi, lo),
                    (Err(e1), Err(e2)) => e1 == e2,
                    _ => false,
                }
            },
{
    let ghost before = *state;
    let words = uuid7(state, secure_rng, clock, args, kwnames);
    let r = match words {
        Ok((hi, lo)) => Ok(uuid_int_from_parts(hi, lo)),
        Err(e) => Err(e),
    };
    assert(uuid7_outcome(before, *state, args@, kwnames@, words));
    r
}

/// Whether a `uuid7()` call with these arguments reads the monotonic clock:
/// its arguments are read and give neither a timestamp nor nanoseconds.
pub open spec fn reads_clock(args: Seq<ArgValue>, kwnames: Seq<&str>) -> bool {
    match uuid7_request(args, kwnames) {
        Ok(Uuid7Request::Clock) => true,
        Ok(Uuid7Request::Parts { timestamp: None, nanos: None, .. }) => true,
        _ => false,
    }
}

/// Monotonicity of `uuid7()`: two successive calls that read the clock, with
/// the fast or the secure generator, give strictly increasing UUIDs, whatever
/// the clock reads in between, as long as the milliseconds reached fit in 48
/// bits.
pub proof fn lemma_uuid7_increasing(
    s0: GeneratorState,
    s1: GeneratorState,
    s2: GeneratorState,
    args1: Seq<ArgValue>,
    kwnames1: Seq<&str>,
    r1: Result<(u64, u64), UuidError>,
    args2: Seq<ArgValue>,
    kwnames2: Seq<&str>,
    r2: Result<(u64, u64), UuidError>,
)
    requires
        s0.wf(),
        uuid7_outcome(s0, s1, args1, kwnames1, r1),
        uuid7_outcome(s1, s2, args2, kwnames2, r2),
        reads_clock(args1, kwnames1),
        reads_clock(args2, kwnames2),
        r1 is Ok,
        r2 is Ok,
        s1.last_ms <= MAX_TS_MS,
        s2.last_ms <= MAX_TS_MS,
    ensures
        uuid_value(r1.unwrap().0, r1.unwrap().1) < uuid_value(r2.unwrap().0, r2.unwrap().1),
{
    let (h1, l1) = r1.unwrap();
    let (h2, l2) = r2.unwrap();
    assert(exists|o: u64| monotonic_step(s0, s1, o, h1, l1));
    let o1 = choose|o: u64| monotonic_step(s0, s1, o, h1, l1);
    assert(exists|o: u64| monotonic_step(s1, s2, o, h2, l2));
    let o2 = choose|o: u64| monotonic_step(s1, s2, o, h2, l2);
    lemma_monotonic(s0, s1, s2, o1, o2, h1, l1, h2, l2);
}

/// The timestamp of a `uuid7()` call that reads the clock: for the clock's
/// reading during the call, it is at least that reading and at most the later
/// of the reading and one past the previous call's timestamp, and (within 48
/// bits) it is the UUID's timestamp field.
pub proof fn lemma_uuid7_timestamp(
    s0: GeneratorState,
    s1: GeneratorState,
    args: Seq<ArgValue>,
    kwnames: Seq<&str>,
    r: Result<(u64, u64), UuidError>,
)
    requires
        s0.wf(),
        s0.last_ms < u64::MAX,
        uuid7_outcome(s0, s1, args, kwnames, r),
        reads_clock(args, kwnames),
        r is Ok,
    ensures
        exists|observed_ms: u64|
            {
                &&& observed_ms <= s1.last_ms
                &&& s1.last_ms <= if observed_ms > s0.last_ms + 1 {
                    observed_ms as int
                } else {
                    s0.last_ms + 1
                }
                &&& s1.last_ms <= MAX_TS_MS ==> r.unwrap().0 >> 16u64 == s1.last_ms
                &&& #[trigger] monotonic_step(s0, s1, observed_ms, r.unwrap().0, r.unwrap().1)
            },
{
    let (h, l) = r.unwrap();
    assert(exists|o: u64| monotonic_step(s0, s1, o, h, l));
    let o = choose|o: u64| monotonic_step(s0, s1, o, h, l);
    lemma_clock_timestamp_bound(s0, s1, o, h, l);
}

/// `uuid7()` without a timestamp is stamped with the clock's reading taken in
/// the call, with or without nanoseconds: with them its timestamp field is
/// the reading (within 48 bits); without them it is at least the reading and
/// at most the later of the reading and one past the previous timestamp.
pub proof fn lemma_uuid7_stamped_by_clock<K: MsClock>(
    before: GeneratorState,
    after: GeneratorState,
    nanos: Option<u64>,
    secure: bool,
    r: Result<(u64, u64), UuidError>,
    clock_before: K,
    clock_after: K,
)
    requires
        before.wf(),
        before.last_ms < u64::MAX,
        parts_outcome(before, after, None, nanos, secure, r),
        parts_clock_outcome(before, after, None, nanos, secure, r, clock_before, clock_after),
        r is Ok,
    ensures
        exists|reading: u64|
            #![trigger reads_before_seeding(before, clock_before, clock_after, Some(reading))]
            #![trigger reads_after_seeding(before, clock_before, clock_after, Some(reading))]
            {
                &&& reads_before_seeding(before, clock_before, clock_after, Some(reading))
                    || reads_after_seeding(before, clock_before, clock_after, Some(reading))
                &&& nanos is Some && reading <= MAX_TS_MS ==> r.unwrap().0 >> 16u64 == reading
                &&& nanos is None && after.last_ms <= MAX_TS_MS ==> reading <= r.unwrap().0
                    >> 16u64 && r.unwrap().0 >> 16u64 <= if reading > before.last_ms + 1 {
                    reading as int
                } else {
                    before.last_ms + 1
                }
            },
{
    let (hi, lo) = r.unwrap();
    if nanos is Some {
        let reading = choose|reading: u64|
            #[trigger] reads_before_seeding(before, clock_before, clock_after, Some(reading)) && (
            reading <= MAX_TS_MS ==> hi >> 16u64 == reading);
        assert(reads_before_seeding(before, clock_before, clock_after, Some(reading)));
    } else if secure {
        let reading = choose|reading: u64|
            #[trigger] reads_after_seeding(before, clock_before, clock_after, Some(reading))
                && monotonic_step(before, after, reading, hi, lo);
        lemma_clock_timestamp_bound(before, after, reading, hi, lo);
        assert(reads_after_seeding(before, clock_before, clock_after, Some(reading)));
    } else {
        let reading = choose|reading: u64|
            #[trigger] reads_before_seeding(before, clock_before, clock_after, Some(reading))
                && monotonic_step(before, after, reading, hi, lo);
        lemma_clock_timestamp_bound(before, after, reading, hi, lo);
        assert(reads_before_seeding(before, clock_before, clock_after, Some(reading)));
    }
}

} // verus!
