//! The attributes of a UUID as Python's `uuid.UUID` names them.

use vstd::prelude::*;
use crate::hex::helpers::{fmt_dashed, fmt_hex32};
use crate::model::{dashed_text, digits_value, hex32_text, le_reorder, urn_prefix, uuid_bytes};
use crate::parse::{uuid_to_bytes, uuid_to_bytes_le};
use crate::python::py_3_14_plus::uuid_int_from_parts;
use crate::uuid::uuid_obj::UUIDObject;

verus! {

/// `UUID.urn`: `urn:uuid:` followed by the dashed form.
pub open spec fn urn_text(hi: u64, lo: u64) -> Seq<u8> {
    urn_prefix() + dashed_text(hi, lo)
}

/// Writes `UUID.hex` into the first 32 bytes of `buf`.
pub fn hex(obj: &UUIDObject, buf: &mut [u8])
    requires
        old(buf)@.len() >= 32,
    ensures
        final(buf)@.len() == old(buf)@.len(),
        final(buf)@.subrange(0, 32) == hex32_text(obj.hi, obj.lo),
        final(buf)@.subrange(32, old(buf)@.len() as int) == old(buf)@.subrange(
            32,
            old(buf)@.len() as int,
        ),
{
    fmt_hex32(obj.hi, obj.lo, buf);
}

/// Writes `UUID.urn` into the first 45 bytes of `buf`.
pub fn urn(obj: &UUIDObject, buf: &mut [u8])
    requires
        old(buf)@.len() >= 45,
    ensures
        final(buf)@.len() == old(buf)@.len(),
        final(buf)@.subrange(0, 45) == urn_text(obj.hi, obj.lo),
        final(buf)@.subrange(45, old(buf)@.len() as int) == old(buf)@.subrange(
            45,
            old(buf)@.len() as int,
        ),
{
    let ghost start = buf@;
    let mut text = [0u8; 36];
    fmt_dashed(obj.hi, obj.lo, &mut text);
    assert(text@.subrange(0, 36) =~= text@);
    let prefix: [u8; 9] = [117, 114, 110, 58, 117, 117, 105, 100, 58];
    assert(prefix@ =~= urn_prefix());
    let mut k: usize = 0;
    while k < 9
        invariant
            k <= 9,
            buf@.len() == start.len(),
            start.len() >= 45,
            prefix@ == urn_prefix(),
            forall|j: int| 0 <= j < k ==> #[trigger] buf@[j] == urn_prefix()[j],
            forall|j: int| 9 <= j < start.len() ==> #[trigger] buf@[j] == start[j],
        decreases 9 - k,
    {
        buf[k] = prefix[k];
        k += 1;
    }
    let mut k: usize = 0;
    while k < 36
        invariant
            k <= 36,
            buf@.len() == start.len(),
            start.len() >= 45,
            text@ == dashed_text(obj.hi, obj.lo),
            forall|j: int| 0 <= j < 9 ==> #[trigger] buf@[j] == urn_prefix()[j],
            forall|j: int| 0 <= j < k ==> #[trigger] buf@[9 + j] == text@[j],
            forall|j: int| 45 <= j < start.len() ==> #[trigger] buf@[j] == start[j],
        decreases 36 - k,
    {
        buf[9 + k] = text[k];
        k += 1;
    }
    proof {
        assert forall|j: int| 0 <= j < 45 implies #[trigger] buf@.subrange(0, 45)[j] == urn_text(
            obj.hi,
            obj.lo,
        )[j] by {
            if 9 <= j {
                assert(buf@[9 + (j - 9)] == text@[j - 9]);
            }
        }
        assert(buf@.subrange(0, 45) =~= urn_text(obj.hi, obj.lo));
        assert(buf@.subrange(45, start.len() as int) =~= start.subrange(45, start.len() as int));
    }
}

/// `UUID.bytes`: the 16 big-endian bytes.
pub fn bytes(obj: &UUIDObject) -> (r: [u8; 16])
    ensures
        r@ == uuid_bytes(obj.hi, obj.lo),
{
    let mut buf = [0u8; 16];
    uuid_to_bytes(obj.hi, obj.lo, &mut buf);
    assert(buf@.subrange(0, 16) =~= buf@);
    buf
}

/// `UUID.bytes_le`: the 16 bytes with the first three fields little-endian.
pub fn bytes_le(obj: &UUIDObject) -> (r: [u8; 16])
    ensures
        r@ == le_reorder(uuid_bytes(obj.hi, obj.lo)),
{
    let buf = bytes(obj);
    let mut reordered = [0u8; 16];
    uuid_to_bytes_le(&buf, &mut reordered);
    reordered
}

/// `UUID.int`, as its five base-2^30 digits, least significant first.
pub fn int_digits(obj: &UUIDObject) -> (r: [u32; 5])
    ensures
        forall|k: int| 0 <= k < 4 ==> #[trigger] r@[k] < 0x4000_0000,
        r@[4] <= 0xFF,
        digits_value(r@) == obj.value(),
{
    uuid_int_from_parts(obj.hi, obj.lo)
}

/// `UUID.fields`: `(time_low, time_mid, time_hi_version, clock_seq_hi_variant,
/// clock_seq_low, node)`.
pub fn fields(obj: &UUIDObject) -> (r: (u64, u64, u64, u64, u64, u64))
    ensures
        r.0 == obj.value() / 0x1_0000_0000_0000_0000_0000_0000,
        r.1 == (obj.value() / 0x1_0000_0000_0000_0000_0000) % 0x1_0000,
        r.2 == (obj.value() / 0x1_0000_0000_0000_0000) % 0x1_0000,
        r.3 == (obj.value() / 0x100_0000_0000_0000) % 0x100,
        r.4 == (obj.value() / 0x1_0000_0000_0000) % 0x100,
        r.5 == obj.value() % 0x1_0000_0000_0000,
{
    (
        obj.time_low(),
        obj.time_mid(),
        obj.time_hi_version(),
        obj.clock_seq_hi_variant(),
        obj.clock_seq_low(),
        obj.node(),
    )
}

/// `UUID.clock_seq`.
pub fn get_clock_seq(obj: &UUIDObject) -> (r: u64)
    ensures
        r == (obj.value() / 0x1_0000_0000_0000) % 0x4000,
{
    obj.clock_seq()
}

} // verus!
