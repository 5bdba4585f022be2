//! The UUID value and the fields Python's `uuid.UUID` reads off it.

use vstd::prelude::*;
use crate::model::uuid_value;

verus! {

/// A UUID, held as the high and low 64-bit halves of its 128-bit value.
#[derive(Clone, Copy, Debug, PartialEq, Eq, Structural)]
pub struct UUIDObject {
    pub hi: u64,
    pub lo: u64,
}

/// Each field read off the halves by shifts and masks is the field of the
/// 128-bit value by division and remainder.
proof fn lemma_field_shifts(hi: u64, lo: u64)
    ensures
        (hi >> 16u64) as int == ((hi as int) * 0x1_0000_0000_0000_0000 + (lo as int))
            / 0x1_0000_0000_0000_0000_0000,
        (hi >> 32u64) as int == ((hi as int) * 0x1_0000_0000_0000_0000 + (lo as int))
            / 0x1_0000_0000_0000_0000_0000_0000,
        ((hi >> 16u64) & 0xFFFF) as int == (((hi as int) * 0x1_0000_0000_0000_0000 + (
        lo as int)) / 0x1_0000_0000_0000_0000_0000) % 0x1_0000,
        (hi & 0xFFFF) as int == (((hi as int) * 0x1_0000_0000_0000_0000 + (lo as int))
            / 0x1_0000_0000_0000_0000) % 0x1_0000,
        ((((lo >> 56u64) & 0x3F) << 8u64) | ((lo >> 48u64) & 0xFF)) as int == (((hi as int)
            * 0x1_0000_0000_0000_0000 + (lo as int)) / 0x1_0000_0000_0000) % 0x4000,
        (lo >> 56u64) as int == (((hi as int) * 0x1_0000_0000_0000_0000 + (lo as int))
            / 0x100_0000_0000_0000) % 0x100,
        ((lo >> 48u64) & 0xFF) as int == (((hi as int) * 0x1_0000_0000_0000_0000 + (
        lo as int)) / 0x1_0000_0000_0000) % 0x100,
        (lo & 0xFFFF_FFFF_FFFF) as int == ((hi as int) * 0x1_0000_0000_0000_0000 + (
        lo as int)) % 0x1_0000_0000_0000,
{
    assert(((hi >> 16u64) as int == ((hi as int) * 0x1_0000_0000_0000_0000 + (lo as int))
            / 0x1_0000_0000_0000_0000_0000) &&
        ((hi >> 32u64) as int == ((hi as int) * 0x1_0000_0000_0000_0000 + (lo as int))
            / 0x1_0000_0000_0000_0000_0000_0000) &&
        (((hi >> 16u64) & 0xFFFF) as int == (((hi as int) * 0x1_0000_0000_0000_0000 + (
        lo as int)) / 0x1_0000_0000_0000_0000_0000) % 0x1_0000) &&
        ((hi & 0xFFFF) as int == (((hi as int) * 0x1_0000_0000_0000_0000 + (lo as int))
            / 0x1_0000_0000_0000_0000) % 0x1_0000) &&
        (((((lo >> 56u64) & 0x3F) << 8u64) | ((lo >> 48u64) & 0xFF)) as int == (((hi as int)
            * 0x1_0000_0000_0000_0000 + (lo as int)) / 0x1_0000_0000_0000) % 0x4000) &&
        ((lo >> 56u64) as int == (((hi as int) * 0x1_0000_0000_0000_0000 + (lo as int))
            / 0x100_0000_0000_0000) % 0x100) &&
        (((lo >> 48u64) & 0xFF) as int == (((hi as int) * 0x1_0000_0000_0000_0000 + (
        lo as int)) / 0x1_0000_0000_0000) % 0x100) &&
        ((lo & 0xFFFF_FFFF_FFFF) as int == ((hi as int) * 0x1_0000_0000_0000_0000 + (
        lo as int)) % 0x1_0000_0000_0000)) by (bit_vector);
}

impl UUIDObject {
    /// The 128-bit value.
    pub open spec fn value(&self) -> int {
        uuid_value(self.hi, self.lo)
    }

    /// The top 48 bits, the millisecond timestamp of a version 7 UUID
    /// (`int >> 80`).
    pub fn time(&self) -> (r: u64)
        ensures
            r == self.value() / 0x1_0000_0000_0000_0000_0000,
            r == self.hi >> 16u64,
    {
        proof {
            lemma_field_shifts(self.hi, self.lo);
        }
        self.hi >> 16u64
    }

    /// The first 32 bits (`int >> 96`).
    pub fn time_low(&self) -> (r: u64)
        ensures
            r == self.value() / 0x1_0000_0000_0000_0000_0000_0000,
            r == self.hi >> 32u64,
    {
        proof {
            lemma_field_shifts(self.hi, self.lo);
        }
        self.hi >> 32u64
    }

    /// The next 16 bits (`(int >> 80) & 0xffff`).
    pub fn time_mid(&self) -> (r: u64)
        ensures
            r == (self.value() / 0x1_0000_0000_0000_0000_0000) % 0x1_0000,
    {
        proof {
            lemma_field_shifts(self.hi, self.lo);
        }
        self.time() & 0xFFFF
    }

    /// The next 16 bits, holding the version (`(int >> 64) & 0xffff`).
    pub fn time_hi_version(&self) -> (r: u64)
        ensures
            r == (self.value() / 0x1_0000_0000_0000_0000) % 0x1_0000,
    {
        proof {
            lemma_field_shifts(self.hi, self.lo);
        }
        self.hi & 0xFFFF
    }

    /// The 14-bit clock sequence: `clock_seq_hi_variant` without its two variant
    /// bits, followed by `clock_seq_low` (`(int >> 48) & 0x3fff`).
    pub fn clock_seq(&self) -> (r: u64)
        ensures
            r == (self.value() / 0x1_0000_0000_0000) % 0x4000,
    {
        proof {
            lemma_field_shifts(self.hi, self.lo);
        }
        ((self.clock_seq_hi_variant() & 0x3F) << 8u64) | self.clock_seq_low()
    }

    /// The byte holding the variant (`(int >> 56) & 0xff`).
    pub fn clock_seq_hi_variant(&self) -> (r: u64)
        ensures
            r == (self.value() / 0x100_0000_0000_0000) % 0x100,
            r == self.lo >> 56u64,
    {
        proof {
            lemma_field_shifts(self.hi, self.lo);
        }
        self.lo >> 56u64
    }

    /// The next byte (`(int >> 48) & 0xff`).
    pub fn clock_seq_low(&self) -> (r: u64)
        ensures
            r == (self.value() / 0x1_0000_0000_0000) % 0x100,
            r == (self.lo >> 48u64) & 0xFF,
    {
        proof {
            lemma_field_shifts(self.hi, self.lo);
        }
        (self.lo >> 48u64) & 0xFF
    }

    /// The last 48 bits (`int & 0xffffffffffff`).
    pub fn node(&self) -> (r: u64)
        ensures
            r == self.value() % 0x1_0000_0000_0000,
    {
        proof {
            lemma_field_shifts(self.hi, self.lo);
        }
        self.lo & 0xFFFF_FFFF_FFFF
    }
}

} // verus!
