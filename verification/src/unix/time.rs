//! The millisecond clock, read through the standard library.

use vstd::prelude::*;
use std::time::{Duration, SystemTime, UNIX_EPOCH};
use crate::rng::MsClock;

verus! {

#[verifier::external_type_specification]
#[verifier::external_body]
pub struct ExSystemTime(SystemTime);

/// Calls `SystemTime::now`: the current time of the system clock, which
/// nothing here can state.
#[verifier::external_body]
fn system_time_now() -> SystemTime {
    SystemTime::now()
}

/// Calls `SystemTime::duration_since(UNIX_EPOCH)`: the time elapsed since the
/// Unix epoch, `None` where the clock reads before it. Which of the two comes
/// rests on the clock and is not stated.
#[verifier::external_body]
fn duration_since_unix_epoch(t: &SystemTime) -> Option<Duration> {
    t.duration_since(UNIX_EPOCH).ok()
}

/// Calls `Duration::as_millis`: the whole milliseconds of a duration. Its value
/// is not stated.
#[verifier::external_body]
fn duration_as_millis(d: &Duration) -> u128 {
    d.as_millis()
}

/// Milliseconds since the Unix epoch by the system clock, truncated to 64
/// bits; `None` should the clock read before the epoch. Nothing is stated of
/// the value, which is the clock's.
pub fn now_ms() -> Option<u64> {
    let now = system_time_now();
    match duration_since_unix_epoch(&now) {
        Some(d) => Some(#[verifier::truncate] (duration_as_millis(&d) as u64)),
        None => None,
    }
}

/// Nothing to record once the generator is seeded: this clock needs no offset.
pub fn platform_seeded() {
}

/// The standard library's system clock.
pub struct SystemClock;

impl MsClock for SystemClock {
    fn now_ms(&mut self) -> Option<u64> {
        now_ms()
    }

    fn seeded(&mut self) {
        platform_seeded()
    }
}

} // verus!
