//! A verified core for a UUID version 7 generator and a UUID value type:
//! hexadecimal text forms, byte and field layouts, the 128-bit integer form,
//! and the monotonic generator state.

pub mod hex;
pub mod model;
pub mod parse;
pub mod python;
pub mod rng;
pub mod roundtrip;
pub mod unix;
pub mod uuid;
pub mod windows;
