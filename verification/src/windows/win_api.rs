//! The time value the Windows API hands out.

use vstd::prelude::*;

verus! {

/// A count of 100-nanosecond ticks since 1601-01-01, in two 32-bit halves.
#[derive(Clone, Copy, Debug, Default, PartialEq, Eq, Structural)]
pub struct FILETIME {
    pub dw_low_date_time: u32,
    pub dw_high_date_time: u32,
}

} // verus!
