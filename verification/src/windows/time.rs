//! The Windows millisecond clock: the interrupt-time counter, which never
//! steps back, plus the offset that maps it onto the Unix epoch, taken from the
//! system time when the generator is seeded. The readings come from the
//! Windows API; this is the arithmetic on them, taking the readings as
//! arguments. The extension reads the counters on Windows and hands the
//! generator a clock (`rng::MsClock`) built on these functions.

use vstd::prelude::*;
use crate::windows::win_api::FILETIME;

verus! {

/// Ticks (100 ns) between 1601-01-01 and 1970-01-01: 134,774 days.
pub const UNIX_EPOCH_TICKS: u64 = 116_444_736_000_000_000;

/// Ticks (100 ns) in a millisecond.
pub const TICKS_PER_MILLISECOND: u64 = 10_000;

/// The tick count a file time stands for.
pub open spec fn filetime_ticks(file_time: FILETIME) -> int {
    file_time.dw_high_date_time as int * 0x1_0000_0000 + file_time.dw_low_date_time as int
}

/// Milliseconds since the Unix epoch of a system time.
pub open spec fn spec_system_ms(file_time: FILETIME) -> int {
    (filetime_ticks(file_time) - UNIX_EPOCH_TICKS) / TICKS_PER_MILLISECOND as int
}

/// Milliseconds of an interrupt-time reading.
pub open spec fn spec_now(interrupt_time: u64) -> int {
    interrupt_time as int / TICKS_PER_MILLISECOND as int
}

/// Milliseconds since the Unix epoch of a system time read as a file time.
pub fn system_ms(file_time: &FILETIME) -> (ms: u64)
    requires
        filetime_ticks(*file_time) >= UNIX_EPOCH_TICKS,
    ensures
        ms == spec_system_ms(*file_time),
{
    let hi = file_time.dw_high_date_time;
    let lo = file_time.dw_low_date_time;
    let ticks = ((hi as u64) << 32u64) | (lo as u64);
    assert(((hi as u64) << 32u64) | (lo as u64) == (hi as int) * 0x1_0000_0000 + (lo as int))
        by (bit_vector);
    (ticks - UNIX_EPOCH_TICKS) / TICKS_PER_MILLISECOND
}

/// Milliseconds of an interrupt-time reading.
pub fn now(interrupt_time: u64) -> (ms: u64)
    ensures
        ms == spec_now(interrupt_time),
{
    interrupt_time / TICKS_PER_MILLISECOND
}

/// Milliseconds since the Unix epoch: the interrupt time plus the offset
/// stored when the generator was seeded.
pub fn now_ms(interrupt_time: u64, epoch_offset_ms: u64) -> (ms: u64)
    requires
        spec_now(interrupt_time) + epoch_offset_ms <= u64::MAX,
    ensures
        ms == spec_now(interrupt_time) + epoch_offset_ms,
{
    now(interrupt_time) + epoch_offset_ms
}

/// The offset to store once the generator is seeded: the system time less the
/// interrupt time, both in milliseconds, read together.
pub fn platform_seeded(file_time: &FILETIME, interrupt_time: u64) -> (offset: u64)
    requires
        filetime_ticks(*file_time) >= UNIX_EPOCH_TICKS,
        spec_system_ms(*file_time) >= spec_now(interrupt_time),
    ensures
        offset == spec_system_ms(*file_time) - spec_now(interrupt_time),
{
    system_ms(file_time) - now(interrupt_time)
}

/// Right after seeding, the clock reads the system time: the interrupt time
/// plus the stored offset gives back the system time's milliseconds.
pub proof fn lemma_seeded_clock_reads_system_time(file_time: FILETIME, interrupt_time: u64)
    requires
        filetime_ticks(file_time) >= UNIX_EPOCH_TICKS,
        spec_system_ms(file_time) >= spec_now(interrupt_time),
    ensures
        spec_now(interrupt_time) + (spec_system_ms(file_time) - spec_now(interrupt_time))
            == spec_system_ms(file_time),
{
}

} // verus!
