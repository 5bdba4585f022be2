//! Reading a UUID from each of the forms Python's `uuid.UUID` accepts: a hex
//! text, 16 big-endian bytes, 16 bytes in `bytes_le` order, an integer, or six
//! fields; and writing its bytes back.

use vstd::prelude::*;
use crate::hex::helpers::parse_uuid_hex_str;
use crate::model::{
    be_word_value, digit_at, digits_value, field_limit, fields_value, five_digits_value,
    le_index, le_reorder, lemma_be_word_unfold, lemma_digits_to_words, lemma_digits_value_padded,
    lemma_fields_to_words, parse_plain_uuid_text, urn_then_brace_or_end, uuid_bytes, uuid_value, word_byte, word_bytes,
    words_of_bytes,
};
use crate::python::args::{arg_value, ArgValue};
use crate::python::exceptions::UuidError;

verus! {

/// Reads eight bytes from `start`, big-endian.
fn be_word_at(bytes: &[u8], start: usize) -> (w: u64)
    requires
        start + 8 <= bytes@.len(),
    ensures
        w == be_word_value(bytes@.subrange(start as int, start + 8)),
{
    let mut acc: u64 = 0;
    let mut i: usize = 0;
    while i < 8
        invariant
            start + 8 <= bytes.len(),
            i <= 8,
            acc == be_word_value(bytes@.subrange(start as int, start + i)),
        decreases 8 - i,
    {
        proof {
            lemma_be_word_unfold(bytes@, start as int, i as int);
        }
        acc = (acc << 8u64) | (bytes[start + i] as u64);
        i += 1;
    }
    acc
}

/// Reads the two halves of a UUID from its first 16 bytes, big-endian.
pub fn bytes_to_hilo(bytes: &[u8], hi: &mut u64, lo: &mut u64)
    requires
        bytes@.len() >= 16,
    ensures
        (*final(hi), *final(lo)) == words_of_bytes(bytes@),
{
    *hi = be_word_at(bytes, 0);
    *lo = be_word_at(bytes, 8);
}

/// Writes the 16 big-endian bytes of a UUID at the start of `out`.
pub fn uuid_to_bytes(hi: u64, lo: u64, out: &mut [u8])
    requires
        old(out)@.len() >= 16,
    ensures
        final(out)@.len() == old(out)@.len(),
        final(out)@.subrange(0, 16) == uuid_bytes(hi, lo),
        final(out)@.subrange(16, old(out)@.len() as int) == old(out)@.subrange(
            16,
            old(out)@.len() as int,
        ),
{
    let ghost start = out@;
    let mut i: usize = 0;
    while i < 8
        invariant
            i <= 8,
            out@.len() == start.len(),
            start.len() >= 16,
            forall|k: int| 0 <= k < i ==> #[trigger] out@[k] == word_byte(hi, k),
            forall|k: int| 0 <= k < i ==> #[trigger] out@[8 + k] == word_byte(lo, k),
            forall|k: int| 16 <= k < start.len() ==> #[trigger] out@[k] == start[k],
        decreases 8 - i,
    {
        let sh = (56 - 8 * i) as u64;
        out[i] = ((hi >> sh) & 0xff) as u8;
        out[8 + i] = ((lo >> sh) & 0xff) as u8;
        i += 1;
    }
    proof {
        assert forall|k: int| 0 <= k < 16 implies #[trigger] out@.subrange(0, 16)[k] == uuid_bytes(
            hi,
            lo,
        )[k] by {
            if k >= 8 {
                assert(out@[8 + (k - 8)] == word_byte(lo, k - 8));
            }
        }
        assert(out@.subrange(0, 16) =~= uuid_bytes(hi, lo));
        assert(out@.subrange(16, start.len() as int) =~= start.subrange(16, start.len() as int));
    }
}

/// Reorders 16 big-endian bytes into `bytes_le` order (the first three fields
/// little-endian), the order being its own inverse.
pub fn uuid_to_bytes_le(bytes: &[u8; 16], out: &mut [u8; 16])
    ensures
        final(out)@ == le_reorder(bytes@),
{
    out[0] = bytes[3];
    out[1] = bytes[2];
    out[2] = bytes[1];
    out[3] = bytes[0];
    out[4] = bytes[5];
    out[5] = bytes[4];
    out[6] = bytes[7];
    out[7] = bytes[6];
    let mut i: usize = 8;
    while i < 16
        invariant
            8 <= i <= 16,
            forall|k: int| 0 <= k < 8 ==> #[trigger] out@[k] == bytes@[le_index(k)],
            forall|k: int| 8 <= k < i ==> #[trigger] out@[k] == bytes@[k],
        decreases 16 - i,
    {
        out[i] = bytes[i];
        i += 1;
    }
    assert(out@ =~= le_reorder(bytes@));
}

/// The same reordering between the first 16 bytes of two buffers.
pub fn uuid_to_bytes_le_ptr(src: &[u8], dst: &mut [u8])
    requires
        src@.len() >= 16,
        old(dst)@.len() >= 16,
    ensures
        final(dst)@.len() == old(dst)@.len(),
        final(dst)@.subrange(0, 16) == le_reorder(src@),
        final(dst)@.subrange(16, old(dst)@.len() as int) == old(dst)@.subrange(
            16,
            old(dst)@.len() as int,
        ),
{
    let ghost start = dst@;
    dst[0] = src[3];
    dst[1] = src[2];
    dst[2] = src[1];
    dst[3] = src[0];
    dst[4] = src[5];
    dst[5] = src[4];
    dst[6] = src[7];
    dst[7] = src[6];
    let mut i: usize = 8;
    while i < 16
        invariant
            8 <= i <= 16,
            src@.len() >= 16,
            start.len() >= 16,
            dst@.len() == start.len(),
            forall|k: int| 0 <= k < 8 ==> #[trigger] dst@[k] == src@[le_index(k)],
            forall|k: int| 8 <= k < i ==> #[trigger] dst@[k] == src@[k],
            forall|k: int| 16 <= k < start.len() ==> #[trigger] dst@[k] == start[k],
        decreases 16 - i,
    {
        dst[i] = src[i];
        i += 1;
    }
    assert(dst@.subrange(0, 16) =~= le_reorder(src@));
    assert(dst@.subrange(16, start.len() as int) =~= start.subrange(16, start.len() as int));
}

/// Reads a UUID from its text (Python's `UUID(hex)`): 32 hex digits, bare or
/// dashed; a text with a `urn:uuid:` prefix or in braces is refused, and one
/// that is `urn:uuid:` alone or followed by a brace is not taken.
pub fn parse_uuid(text: &[u8], hi: &mut u64, lo: &mut u64) -> (r: Result<(), UuidError>)
    requires
        !urn_then_brace_or_end(text@),
    ensures
        r is Ok <==> parse_plain_uuid_text(text@) is Some,
        r is Ok ==> parse_plain_uuid_text(text@) == Some((*final(hi), *final(lo))),
        r is Err ==> r == Err::<(), UuidError>(UuidError::BadlyFormedHex) && *final(hi) == *old(hi)
            && *final(lo) == *old(lo),
{
    if parse_uuid_hex_str(text, hi, lo) != 0 {
        return Err(UuidError::BadlyFormedHex);
    }
    Ok(())
}

/// Reads a UUID from 16 bytes, big-endian (Python's `UUID(bytes=...)`), or in
/// `bytes_le` order when `le` holds (Python's `UUID(bytes_le=...)`).
pub fn parse_uuid_bytes(value: &[u8], le: bool, hi: &mut u64, lo: &mut u64) -> (r: Result<
    (),
    UuidError,
>)
    ensures
        r is Ok <==> value@.len() == 16,
        r is Ok ==> (*final(hi), *final(lo)) == words_of_bytes(
            if le {
                le_reorder(value@)
            } else {
                value@
            },
        ),
        r is Err ==> r == Err::<(), UuidError>(
            if le {
                UuidError::BytesLeLength
            } else {
                UuidError::BytesLength
            },
        ) && *final(hi) == *old(hi) && *final(lo) == *old(lo),
{
    if value.len() != 16 {
        return Err(
            if le {
                UuidError::BytesLeLength
            } else {
                UuidError::BytesLength
            },
        );
    }
    if le {
        let mut reordered = [0u8; 16];
        uuid_to_bytes_le_ptr(value, &mut reordered);
        assert(reordered@.subrange(0, 16) =~= reordered@);
        bytes_to_hilo(&reordered, hi, lo);
    } else {
        bytes_to_hilo(value, hi, lo);
    }
    Ok(())
}

/// What the interpreter exports of an integer: either a small `value` alone,
/// or its sign and its base-2^30 digits, least significant first.
pub struct LongExport {
    pub value: i64,
    pub negative: bool,
    pub digits: Option<Vec<u32>>,
}

impl LongExport {
    /// Whether every digit lies below 2^30, as the interpreter keeps them.
    pub open spec fn wf(&self) -> bool {
        self.digits matches Some(d) ==> forall|k: int| 0 <= k < d@.len() ==> #[trigger] d@[k]
            < 0x4000_0000
    }

    /// Whether the integer lies in `0..2**128`, as the export shows it.
    pub open spec fn in_uuid_range(&self) -> bool {
        match self.digits {
            None => self.value >= 0,
            Some(d) => !self.negative && d@.len() <= 5 && (d@.len() < 5 || d@[4] <= 0xFF),
        }
    }

    /// The magnitude of the integer.
    pub open spec fn magnitude(&self) -> int {
        match self.digits {
            None => self.value as int,
            Some(d) => digits_value(d@),
        }
    }
}

/// Reads a UUID from an integer (Python's `UUID(int=...)`).
pub fn parse_uuid_int(value: &LongExport, hi: &mut u64, lo: &mut u64) -> (r: Result<
    (),
    UuidError,
>)
    requires
        value.wf(),
    ensures
        r is Ok <==> value.in_uuid_range(),
        r is Ok ==> uuid_value(*final(hi), *final(lo)) == value.magnitude(),
        r is Err ==> r == Err::<(), UuidError>(UuidError::IntOutOfRange) && *final(hi) == *old(hi)
            && *final(lo) == *old(lo),
{
    match &value.digits {
        None => {
            if value.value < 0 {
                return Err(UuidError::IntOutOfRange);
            }
            *hi = 0;
            *lo = value.value as u64;
            Ok(())
        },
        Some(d) => {
            if value.negative || d.len() > 5 {
                return Err(UuidError::IntOutOfRange);
            }
            let ndigits = d.len();
            let mut digit = [0u64; 5];
            let mut k: usize = 0;
            while k < ndigits
                invariant
                    ndigits == d@.len(),
                    ndigits <= 5,
                    k <= ndigits,
                    forall|j: int| 0 <= j < k ==> #[trigger] digit@[j] == d@[j] as u64,
                    forall|j: int| k <= j < 5 ==> #[trigger] digit@[j] == 0,
                decreases ndigits - k,
            {
                digit[k] = d[k] as u64;
                k += 1;
            }
            if digit[4] > 0xFF {
                return Err(UuidError::IntOutOfRange);
            }
            proof {
                assert forall|j: int| 0 <= j < 5 implies #[trigger] digit@[j] == digit_at(d@, j)
                    && digit@[j] < 0x4000_0000 by {}
                lemma_digits_value_padded(d@);
                lemma_digits_to_words(digit[0], digit[1], digit[2], digit[3], digit[4]);
            }
            *lo = digit[0] | (digit[1] << 30u64) | (digit[2] << 60u64);
            *hi = (digit[2] >> 4u64) | (digit[3] << 26u64) | (digit[4] << 56u64);
            Ok(())
        },
    }
}

/// The largest value of field `i`.
fn field_max(i: usize) -> (m: u64)
    requires
        i < 6,
    ensures
        m == field_limit(i as int),
{
    if i == 0 {
        0xFFFF_FFFF
    } else if i == 1 || i == 2 {
        0xFFFF
    } else if i == 3 || i == 4 {
        0xFF
    } else {
        0xFFFF_FFFF_FFFF
    }
}

/// The first error among six converted fields, looked at in order from `i`:
/// a value that is not an integer, or an integer beyond its field's width.
pub open spec fn fields_error(parts: Seq<Option<u64>>, i: int) -> Option<UuidError>
    decreases 6 - i,
{
    if i >= 6 {
        None
    } else {
        match parts[i] {
            None => Some(UuidError::FieldsNotIntegers),
            Some(v) => if v > field_limit(i) {
                Some(UuidError::FieldOutOfRange)
            } else {
                fields_error(parts, i + 1)
            },
        }
    }
}

/// Reads a UUID from six fields `(time_low, time_mid, time_hi_version,
/// clock_seq_hi_variant, clock_seq_low, node)` (Python's `UUID(fields=...)`);
/// each part is `None` where the value given was not a non-negative integer.
pub fn parse_uuid_fields(parts: &[Option<u64>], hi: &mut u64, lo: &mut u64) -> (r: Result<
    (),
    UuidError,
>)
    ensures
        parts@.len() != 6 ==> r == Err::<(), UuidError>(UuidError::FieldsNotSixTuple),
        parts@.len() == 6 && fields_error(parts@, 0) is Some ==> r == Err::<(), UuidError>(
            fields_error(parts@, 0).unwrap(),
        ),
        parts@.len() == 6 && fields_error(parts@, 0) is None ==> r is Ok && uuid_value(
            *final(hi),
            *final(lo),
        ) == fields_value(
            parts@[0].unwrap() as int,
            parts@[1].unwrap() as int,
            parts@[2].unwrap() as int,
            parts@[3].unwrap() as int,
            parts@[4].unwrap() as int,
            parts@[5].unwrap() as int,
        ),
        r is Err ==> *final(hi) == *old(hi) && *final(lo) == *old(lo),
{
    if parts.len() != 6 {
        return Err(UuidError::FieldsNotSixTuple);
    }
    let mut p = [0u64; 6];
    let mut i: usize = 0;
    while i < 6
        invariant
            parts@.len() == 6,
            i <= 6,
            fields_error(parts@, 0) == fields_error(parts@, i as int),
            forall|j: int| 0 <= j < i ==> #[trigger] parts@[j] == Some(p@[j]),
            forall|j: int| 0 <= j < i ==> #[trigger] p@[j] <= field_limit(j),
        decreases 6 - i,
    {
        let item = parts[i];
        if item.is_none() {
            return Err(UuidError::FieldsNotIntegers);
        }
        let v = item.unwrap();
        if v > field_max(i) {
            return Err(UuidError::FieldOutOfRange);
        }
        p[i] = v;
        i += 1;
    }
    assert(parts@[0] == Some(p@[0]) && parts@[1] == Some(p@[1]) && parts@[2] == Some(p@[2])
        && parts@[3] == Some(p@[3]) && parts@[4] == Some(p@[4]) && parts@[5] == Some(p@[5]));
    assert(p@[0] <= field_limit(0) && p@[1] <= field_limit(1) && p@[2] <= field_limit(2) && p@[3]
        <= field_limit(3) && p@[4] <= field_limit(4) && p@[5] <= field_limit(5));
    proof {
        lemma_fields_to_words(p[0], p[1], p[2], p[3], p[4], p[5]);
    }
    *hi = (p[0] << 32u64) | (p[1] << 16u64) | p[2];
    *lo = (p[3] << 56u64) | (p[4] << 48u64) | p[5];
    Ok(())
}

/// The two integer parameters of `uuid7()`.
#[derive(Clone, Copy, Debug, PartialEq, Eq, Structural)]
pub enum U64Param {
    Timestamp,
    Nanos,
}

impl U64Param {
    /// The error for a value of this parameter that is not a non-negative
    /// integer below 2**64.
    pub open spec fn not_int_error(self) -> UuidError {
        match self {
            U64Param::Timestamp => UuidError::TimestampNotInt,
            U64Param::Nanos => UuidError::NanosNotInt,
        }
    }
}

/// An optional integer argument: absent or `None` reads as no value.
pub open spec fn u64_arg_result(value: Option<ArgValue>, name: U64Param) -> Result<
    Option<u64>,
    UuidError,
> {
    match value {
        None => Ok(None),
        Some(v) => if v.is_none {
            Ok(None)
        } else {
            match v.uint {
                Some(n) => Ok(Some(n)),
                None => Err(name.not_int_error()),
            }
        },
    }
}

/// Reads the optional integer argument `name` of `uuid7()`.
pub fn parse_u64_arg(value: Option<&ArgValue>, name: U64Param) -> (r: Result<
    Option<u64>,
    UuidError,
>)
    ensures
        r == u64_arg_result(arg_value(value), name),
{
    match value {
        None => Ok(None),
        Some(v) => if v.is_none {
            Ok(None)
        } else {
            match v.uint {
                Some(n) => Ok(Some(n)),
                None => match name {
                    U64Param::Timestamp => Err(UuidError::TimestampNotInt),
                    U64Param::Nanos => Err(UuidError::NanosNotInt),
                },
            }
        },
    }
}

} // verus!
