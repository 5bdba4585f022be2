//! What a UUID answers to `str`, `repr`, `hash` and comparison.

use vstd::prelude::*;
use crate::hex::helpers::fmt_dashed;
use crate::model::dashed_text;
use crate::uuid::uuid_obj::UUIDObject;

verus! {

/// Comparison opcodes, as the interpreter numbers them.
pub const PY_LT: i32 = 0;
pub const PY_LE: i32 = 1;
pub const PY_EQ: i32 = 2;
pub const PY_NE: i32 = 3;
pub const PY_GT: i32 = 4;
pub const PY_GE: i32 = 5;

/// The bytes of `UUID('`.
pub open spec fn repr_prefix() -> Seq<u8> {
    seq![0x55u8, 0x55, 0x49, 0x44, 0x28, 0x27]
}

/// The bytes of `')`.
pub open spec fn repr_suffix() -> Seq<u8> {
    seq![0x27u8, 0x29]
}

/// `repr(UUID)`: `UUID('xxxxxxxx-xxxx-xxxx-xxxx-xxxxxxxxxxxx')`.
pub open spec fn repr_text(hi: u64, lo: u64) -> Seq<u8> {
    repr_prefix() + dashed_text(hi, lo) + repr_suffix()
}

/// The hash of a UUID: the halves and their top halves folded together by
/// exclusive or, with -1 (which the interpreter reserves for errors) made -2.
pub open spec fn spec_hash(hi: u64, lo: u64) -> i64 {
    let h = (hi ^ (hi >> 32u64) ^ lo ^ (lo >> 32u64)) as i64;
    if h == -1 {
        -2i64
    } else {
        h
    }
}

/// Writes `str(UUID)` into the first 36 bytes of `buf`.
pub fn __str__(obj: &UUIDObject, buf: &mut [u8])
    requires
        old(buf)@.len() >= 36,
    ensures
        final(buf)@.len() == old(buf)@.len(),
        final(buf)@.subrange(0, 36) == dashed_text(obj.hi, obj.lo),
        final(buf)@.subrange(36, old(buf)@.len() as int) == old(buf)@.subrange(
            36,
            old(buf)@.len() as int,
        ),
{
    fmt_dashed(obj.hi, obj.lo, buf);
}

/// Writes `repr(UUID)` into the first 44 bytes of `buf`.
pub fn __repr__(obj: &UUIDObject, buf: &mut [u8])
    requires
        old(buf)@.len() >= 44,
    ensures
        final(buf)@.len() == old(buf)@.len(),
        final(buf)@.subrange(0, 44) == repr_text(obj.hi, obj.lo),
        final(buf)@.subrange(44, old(buf)@.len() as int) == old(buf)@.subrange(
            44,
            old(buf)@.len() as int,
        ),
{
    let ghost start = buf@;
    let mut text = [0u8; 36];
    fmt_dashed(obj.hi, obj.lo, &mut text);
    assert(text@.subrange(0, 36) =~= text@);
    buf[0] = 0x55u8;
    buf[1] = 0x55u8;
    buf[2] = 0x49u8;
    buf[3] = 0x44u8;
    buf[4] = 0x28u8;
    buf[5] = 0x27u8;
    let mut k: usize = 0;
    while k < 36
        invariant
            k <= 36,
            buf@.len() == start.len(),
            start.len() >= 44,
            text@ == dashed_text(obj.hi, obj.lo),
            forall|j: int| 0 <= j < 6 ==> #[trigger] buf@[j] == repr_prefix()[j],
            forall|j: int| 0 <= j < k ==> #[trigger] buf@[6 + j] == text@[j],
            forall|j: int| 42 <= j < start.len() ==> #[trigger] buf@[j] == start[j],
        decreases 36 - k,
    {
        buf[6 + k] = text[k];
        k += 1;
    }
    buf[42] = 0x27u8;
    buf[43] = 0x29u8;
    proof {
        assert forall|j: int| 0 <= j < 44 implies #[trigger] buf@.subrange(0, 44)[j] == repr_text(
            obj.hi,
            obj.lo,
        )[j] by {
            if 6 <= j < 42 {
                assert(buf@[6 + (j - 6)] == text@[j - 6]);
            }
        }
        assert(buf@.subrange(0, 44) =~= repr_text(obj.hi, obj.lo));
        assert(buf@.subrange(44, start.len() as int) =~= start.subrange(44, start.len() as int));
    }
}

/// `hash(UUID)`.
pub fn __hash__(obj: &UUIDObject) -> (h: i64)
    ensures
        h == spec_hash(obj.hi, obj.lo),
        h != -1,
{
    let folded = obj.hi ^ obj.time_low() ^ obj.lo ^ (obj.lo >> 32u64);
    let h = #[verifier::truncate] (folded as i64);
    if h == -1 {
        -2i64
    } else {
        h
    }
}

/// Rich comparison of two UUIDs by their 128-bit values; `None` for an opcode
/// the interpreter does not define.
pub fn richcompare(self_: &UUIDObject, other: &UUIDObject, op: i32) -> (r: Option<bool>)
    ensures
        op == PY_LT ==> r == Some(self_.value() < other.value()),
        op == PY_LE ==> r == Some(self_.value() <= other.value()),
        op == PY_EQ ==> r == Some(self_.value() == other.value()),
        op == PY_NE ==> r == Some(self_.value() != other.value()),
        op == PY_GT ==> r == Some(self_.value() > other.value()),
        op == PY_GE ==> r == Some(self_.value() >= other.value()),
        !(PY_LT <= op <= PY_GE) ==> r is None,
{
    let lt = self_.hi < other.hi || (self_.hi == other.hi && self_.lo < other.lo);
    let eq = self_.hi == other.hi && self_.lo == other.lo;
    assert(lt == (self_.value() < other.value()));
    assert(eq == (self_.value() == other.value()));
    if op == PY_LT {
        Some(lt)
    } else if op == PY_LE {
        Some(lt || eq)
    } else if op == PY_EQ {
        Some(eq)
    } else if op == PY_NE {
        Some(!eq)
    } else if op == PY_GT {
        Some(!lt && !eq)
    } else if op == PY_GE {
        Some(!lt)
    } else {
        None
    }
}

} // verus!
