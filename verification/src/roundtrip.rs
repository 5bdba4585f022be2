//! The laws that tie the forms of a UUID together: reading back any form the
//! library writes gives the same UUID.

use vstd::prelude::*;
use crate::model::{
    all_hex, ascii_lower, dashed_text, digits_value, fields_value, has_braces, has_urn_prefix,
    hex32_text, hex_digit, is_dash_position, le_reorder, lemma_bytes_word_roundtrip,
    lemma_hex_digit_value, lemma_word_bytes_roundtrip, lemma_word_hex_roundtrip,
    lemma_word_nibble_bound, parse_hex32_text, parse_plain_uuid_text, parse_uuid_text, strip_braces, strip_urn, undash,
    urn_prefix, uuid_bytes, uuid_value, word_bytes, word_hex, words_of_bytes, digits_read,
    lower_digits, lemma_hex_word_reverse, is_hex_digit,
};
use crate::model::lemma_fields_to_words;
use crate::parse::fields_error;
use crate::python::exceptions::UuidError;
use crate::uuid::class::{source_outcome, BytesArg, SourceArg};
use crate::uuid::dunder::spec_hash;
use crate::uuid::uuid_obj::UUIDObject;
use crate::uuid::property::urn_text;

verus! {

/// The 32 digits of a UUID read back as that UUID.
proof fn lemma_hex32_parse(hi: u64, lo: u64)
    ensures
        parse_hex32_text(hex32_text(hi, lo)) == Some((hi, lo)),
{
    let t = hex32_text(hi, lo);
    lemma_word_hex_roundtrip(hi);
    lemma_word_hex_roundtrip(lo);
    assert(t.take(16) =~= word_hex(hi));
    assert(t.skip(16) =~= word_hex(lo));
    assert(all_hex(t)) by {
        assert forall|i: int| 0 <= i < t.len() implies #[trigger] crate::model::is_hex_digit(t[i]) by {
            if i < 16 {
                assert(t[i] == word_hex(hi)[i]);
            } else {
                assert(t[i] == word_hex(lo)[i - 16]);
            }
        }
    }
}

/// The first character of both text forms is a hex digit, so neither starts
/// with `urn:uuid:` nor with a brace.
proof fn lemma_first_digit(hi: u64, lo: u64)
    ensures
        dashed_text(hi, lo)[0] == hex32_text(hi, lo)[0],
        ascii_lower(hex32_text(hi, lo)[0]) != urn_prefix()[0],
        hex32_text(hi, lo)[0] != 123u8,
{
    lemma_word_nibble_bound(hi, 0);
    assert(hex32_text(hi, lo)[0] == word_hex(hi)[0]);
}

/// `UUID(u.hex) == u`: the 32 lower-case digits read back as the UUID, by
/// both text readers.
pub proof fn lemma_hex_roundtrip(hi: u64, lo: u64)
    ensures
        parse_uuid_text(hex32_text(hi, lo)) == Some((hi, lo)),
        parse_plain_uuid_text(hex32_text(hi, lo)) == Some((hi, lo)),
{
    let t = hex32_text(hi, lo);
    lemma_first_digit(hi, lo);
    assert(!has_urn_prefix(t));
    assert(!has_braces(t));
    assert(strip_braces(strip_urn(t)) == t);
    lemma_hex32_parse(hi, lo);
}

/// `UUID(str(u)) == u`: the dashed form reads back as the UUID, by both text
/// readers.
pub proof fn lemma_str_roundtrip(hi: u64, lo: u64)
    ensures
        parse_uuid_text(dashed_text(hi, lo)) == Some((hi, lo)),
        parse_plain_uuid_text(dashed_text(hi, lo)) == Some((hi, lo)),
{
    let d = dashed_text(hi, lo);
    lemma_first_digit(hi, lo);
    assert(!has_urn_prefix(d));
    assert(!has_braces(d));
    assert(strip_braces(strip_urn(d)) == d);
    assert(undash(d) =~= hex32_text(hi, lo));
    lemma_hex32_parse(hi, lo);
}

/// The URN reads back as the UUID by the prefix-stripping reader
/// (`hex::hex::parse_uuid_hex_str`); the constructor's reader refuses it.
pub proof fn lemma_urn_roundtrip(hi: u64, lo: u64)
    ensures
        parse_uuid_text(urn_text(hi, lo)) == Some((hi, lo)),
{
    let u = urn_text(hi, lo);
    let d = dashed_text(hi, lo);
    assert(has_urn_prefix(u)) by {
        assert forall|i: int| 0 <= i < 9 implies #[trigger] ascii_lower(u[i]) == urn_prefix()[i] by {
            assert(u[i] == urn_prefix()[i]);
        }
    }
    assert(u.skip(9) =~= d);
    lemma_first_digit(hi, lo);
    assert(!has_braces(d));
    assert(strip_braces(strip_urn(u)) == d);
    assert(undash(d) =~= hex32_text(hi, lo));
    lemma_hex32_parse(hi, lo);
}

/// Braces around the dashed form are read past by the prefix-stripping
/// reader (`hex::hex::parse_uuid_hex_str`); the constructor's reader refuses
/// them.
pub proof fn lemma_braced_roundtrip(hi: u64, lo: u64)
    ensures
        parse_uuid_text(seq![123u8] + dashed_text(hi, lo) + seq![125u8]) == Some((hi, lo)),
{
    let d = dashed_text(hi, lo);
    let b = seq![123u8] + d + seq![125u8];
    assert(ascii_lower(b[0]) != urn_prefix()[0]);
    assert(!has_urn_prefix(b));
    assert(has_braces(b));
    assert(b.subrange(1, b.len() - 1) =~= d);
    assert(strip_braces(strip_urn(b)) == d);
    assert(undash(d) =~= hex32_text(hi, lo));
    lemma_hex32_parse(hi, lo);
}

/// A text the prefix-stripping reader accepts names the UUID whose `hex` is
/// its 32 digits in lower case: reading keeps every digit and forgets only
/// case, prefix, braces and dashes. The constructor's reader accepts a subset
/// of those texts with the same result.
pub proof fn lemma_parse_hex_normalizes(s: Seq<u8>, hi: u64, lo: u64)
    requires
        parse_uuid_text(s) == Some((hi, lo)),
    ensures
        hex32_text(hi, lo) == lower_digits(digits_read(s)),
{
    let t = strip_braces(strip_urn(s));
    let d = digits_read(s);
    assert(d.len() == 32 && all_hex(d));
    assert(hi == crate::model::hex_word_value(d.take(16)));
    assert forall|i: int| 0 <= i < 16 implies #[trigger] is_hex_digit(d.take(16)[i]) by {
        assert(d.take(16)[i] == d[i]);
    }
    assert forall|i: int| 0 <= i < 16 implies #[trigger] is_hex_digit(d.skip(16)[i]) by {
        assert(d.skip(16)[i] == d[i + 16]);
    }
    lemma_hex_word_reverse(d.take(16));
    lemma_hex_word_reverse(d.skip(16));
    assert(hex32_text(hi, lo) =~= lower_digits(d));
}

/// `UUID(bytes=u.bytes) == u`: the 16 big-endian bytes read back as the UUID.
pub proof fn lemma_bytes_roundtrip(hi: u64, lo: u64)
    ensures
        words_of_bytes(uuid_bytes(hi, lo)) == (hi, lo),
{
    let b = uuid_bytes(hi, lo);
    assert(b.subrange(0, 8) =~= word_bytes(hi));
    assert(b.subrange(8, 16) =~= word_bytes(lo));
    lemma_word_bytes_roundtrip(hi);
    lemma_word_bytes_roundtrip(lo);
}

/// `UUID(bytes=b).bytes == b`: any 16 bytes name a UUID whose bytes they are.
pub proof fn lemma_bytes_reverse_roundtrip(b: Seq<u8>)
    requires
        b.len() == 16,
    ensures
        uuid_bytes(words_of_bytes(b).0, words_of_bytes(b).1) == b,
{
    lemma_bytes_word_roundtrip(b.subrange(0, 8));
    lemma_bytes_word_roundtrip(b.subrange(8, 16));
    assert(b.subrange(0, 8) + b.subrange(8, 16) =~= b);
}

/// The `bytes_le` order undoes itself.
pub proof fn lemma_bytes_le_involution(b: Seq<u8>)
    requires
        b.len() == 16,
    ensures
        le_reorder(le_reorder(b)) == b,
{
    assert(le_reorder(le_reorder(b)) =~= b);
}

/// `UUID(bytes_le=u.bytes_le) == u`.
pub proof fn lemma_bytes_le_roundtrip(hi: u64, lo: u64)
    ensures
        words_of_bytes(le_reorder(le_reorder(uuid_bytes(hi, lo)))) == (hi, lo),
{
    lemma_bytes_le_involution(uuid_bytes(hi, lo));
    lemma_bytes_roundtrip(hi, lo);
}

/// A UUID is determined by its 128-bit value: this is why the integer and the
/// fields read back as the UUID they came from.
pub proof fn lemma_value_determines_uuid(h1: u64, l1: u64, h2: u64, l2: u64)
    requires
        uuid_value(h1, l1) == uuid_value(h2, l2),
    ensures
        h1 == h2,
        l1 == l2,
{
}

/// `UUID(int=u.int) == u`: any halves whose value is the digits' value are the
/// UUID's own halves.
pub proof fn lemma_int_roundtrip(hi: u64, lo: u64, digits: Seq<u32>, h2: u64, l2: u64)
    requires
        digits_value(digits) == uuid_value(hi, lo),
        uuid_value(h2, l2) == digits_value(digits),
    ensures
        h2 == hi,
        l2 == lo,
{
}

/// `UUID(fields=u.fields) == u`: the six fields of a UUID, put back in their
/// places, give its value.
pub proof fn lemma_fields_roundtrip(hi: u64, lo: u64)
    ensures
        fields_value(
            uuid_value(hi, lo) / 0x1_0000_0000_0000_0000_0000_0000,
            (uuid_value(hi, lo) / 0x1_0000_0000_0000_0000_0000) % 0x1_0000,
            (uuid_value(hi, lo) / 0x1_0000_0000_0000_0000) % 0x1_0000,
            (uuid_value(hi, lo) / 0x100_0000_0000_0000) % 0x100,
            (uuid_value(hi, lo) / 0x1_0000_0000_0000) % 0x100,
            uuid_value(hi, lo) % 0x1_0000_0000_0000,
        ) == uuid_value(hi, lo),
{
    assert(((((hi as int) * 0x1_0000_0000_0000_0000 + (lo as int))
        / 0x1_0000_0000_0000_0000_0000_0000) * 0x1_0000_0000_0000_0000_0000_0000 + ((((hi as int)
        * 0x1_0000_0000_0000_0000 + (lo as int)) / 0x1_0000_0000_0000_0000_0000) % 0x1_0000)
        * 0x1_0000_0000_0000_0000_0000 + ((((hi as int) * 0x1_0000_0000_0000_0000 + (lo as int))
        / 0x1_0000_0000_0000_0000) % 0x1_0000) * 0x1_0000_0000_0000_0000 + ((((hi as int)
        * 0x1_0000_0000_0000_0000 + (lo as int)) / 0x100_0000_0000_0000) % 0x100)
        * 0x100_0000_0000_0000 + ((((hi as int) * 0x1_0000_0000_0000_0000 + (lo as int))
        / 0x1_0000_0000_0000) % 0x100) * 0x1_0000_0000_0000 + (((hi as int)
        * 0x1_0000_0000_0000_0000 + (lo as int)) % 0x1_0000_0000_0000)) == (hi as int)
        * 0x1_0000_0000_0000_0000 + (lo as int)) by (bit_vector);
}

/// `UUID(fields=f).fields == f`: six fields within their widths are read back
/// from the value they make.
pub proof fn lemma_fields_reverse_roundtrip(p0: u64, p1: u64, p2: u64, p3: u64, p4: u64, p5: u64)
    requires
        p0 <= 0xFFFF_FFFF,
        p1 <= 0xFFFF,
        p2 <= 0xFFFF,
        p3 <= 0xFF,
        p4 <= 0xFF,
        p5 <= 0xFFFF_FFFF_FFFF,
    ensures
        ({
            let v = fields_value(p0 as int, p1 as int, p2 as int, p3 as int, p4 as int, p5 as int);
            &&& v / 0x1_0000_0000_0000_0000_0000_0000 == p0
            &&& (v / 0x1_0000_0000_0000_0000_0000) % 0x1_0000 == p1
            &&& (v / 0x1_0000_0000_0000_0000) % 0x1_0000 == p2
            &&& (v / 0x100_0000_0000_0000) % 0x100 == p3
            &&& (v / 0x1_0000_0000_0000) % 0x100 == p4
            &&& v % 0x1_0000_0000_0000 == p5
        }),
{
    assert(p0 <= 0xFFFF_FFFF && p1 <= 0xFFFF && p2 <= 0xFFFF && p3 <= 0xFF && p4 <= 0xFF && p5
        <= 0xFFFF_FFFF_FFFF ==> ({
        let v = (p0 as int) * 0x1_0000_0000_0000_0000_0000_0000 + (p1 as int)
            * 0x1_0000_0000_0000_0000_0000 + (p2 as int) * 0x1_0000_0000_0000_0000 + (p3 as int)
            * 0x100_0000_0000_0000 + (p4 as int) * 0x1_0000_0000_0000 + (p5 as int);
        &&& v / 0x1_0000_0000_0000_0000_0000_0000 == p0
        &&& (v / 0x1_0000_0000_0000_0000_0000) % 0x1_0000 == p1
        &&& (v / 0x1_0000_0000_0000_0000) % 0x1_0000 == p2
        &&& (v / 0x100_0000_0000_0000) % 0x100 == p3
        &&& (v / 0x1_0000_0000_0000) % 0x100 == p4
        &&& v % 0x1_0000_0000_0000 == p5
    })) by (bit_vector);
}

/// Equal UUIDs hash alike, and no UUID hashes to -1.
pub proof fn lemma_hash_consistent(h1: u64, l1: u64, h2: u64, l2: u64)
    requires
        uuid_value(h1, l1) == uuid_value(h2, l2),
    ensures
        spec_hash(h1, l1) == spec_hash(h2, l2),
        spec_hash(h1, l1) != -1,
{
}

/// The six fields of a UUID, read off its halves as `UUID.fields` gives them.
pub open spec fn fields_of(hi: u64, lo: u64) -> Seq<Option<u64>> {
    seq![
        Some(hi >> 32u64),
        Some((hi >> 16u64) & 0xFFFF),
        Some(hi & 0xFFFF),
        Some(lo >> 56u64),
        Some((lo >> 48u64) & 0xFF),
        Some(lo & 0xFFFF_FFFF_FFFF),
    ]
}

/// The constructor reads every spelling of one UUID as that UUID: its 32 hex
/// digits, its big-endian bytes, its `bytes_le` bytes, its six fields and its
/// integer all give `UUID` with these halves.
pub proof fn lemma_spellings_agree(
    hi: u64,
    lo: u64,
    hex: SourceArg,
    bytes: SourceArg,
    bytes_le: SourceArg,
    fields: SourceArg,
    integer: SourceArg,
    r_hex: Result<UUIDObject, UuidError>,
    r_bytes: Result<UUIDObject, UuidError>,
    r_bytes_le: Result<UUIDObject, UuidError>,
    r_fields: Result<UUIDObject, UuidError>,
    r_int: Result<UUIDObject, UuidError>,
)
    requires
        hex matches SourceArg::Hex(Some(t)) && t@ == hex32_text(hi, lo),
        bytes matches SourceArg::Bytes(BytesArg::Data(b)) && b@ == uuid_bytes(hi, lo),
        bytes_le matches SourceArg::BytesLe(BytesArg::Data(b)) && b@ == le_reorder(
            uuid_bytes(hi, lo),
        ),
        fields matches SourceArg::Fields(Some(p)) && p@ == fields_of(hi, lo),
        integer matches SourceArg::Int(Some(x)) && x.in_uuid_range() && x.magnitude() == uuid_value(
            hi,
            lo,
        ),
        source_outcome(hex, r_hex),
        source_outcome(bytes, r_bytes),
        source_outcome(bytes_le, r_bytes_le),
        source_outcome(fields, r_fields),
        source_outcome(integer, r_int),
    ensures
        r_hex == Ok::<UUIDObject, UuidError>(UUIDObject { hi, lo }),
        r_bytes == Ok::<UUIDObject, UuidError>(UUIDObject { hi, lo }),
        r_bytes_le == Ok::<UUIDObject, UuidError>(UUIDObject { hi, lo }),
        r_fields == Ok::<UUIDObject, UuidError>(UUIDObject { hi, lo }),
        r_int == Ok::<UUIDObject, UuidError>(UUIDObject { hi, lo }),
{
    lemma_hex_roundtrip(hi, lo);
    lemma_bytes_roundtrip(hi, lo);
    lemma_bytes_le_roundtrip(hi, lo);
    assert(uuid_bytes(hi, lo).len() == 16);
    assert(le_reorder(uuid_bytes(hi, lo)).len() == 16);
    let f0 = hi >> 32u64;
    let f1 = (hi >> 16u64) & 0xFFFF;
    let f2 = hi & 0xFFFF;
    let f3 = lo >> 56u64;
    let f4 = (lo >> 48u64) & 0xFF;
    let f5 = lo & 0xFFFF_FFFF_FFFF;
    assert(f0 <= 0xFFFF_FFFF && f1 <= 0xFFFF && f2 <= 0xFFFF && f3 <= 0xFF && f4 <= 0xFF && f5
        <= 0xFFFF_FFFF_FFFF && (f0 << 32u64) | (f1 << 16u64) | f2 == hi && (f3 << 56u64) | (f4
        << 48u64) | f5 == lo) by (bit_vector)
        requires
            f0 == hi >> 32u64,
            f1 == (hi >> 16u64) & 0xFFFF,
            f2 == hi & 0xFFFF,
            f3 == lo >> 56u64,
            f4 == (lo >> 48u64) & 0xFF,
            f5 == lo & 0xFFFF_FFFF_FFFF,
    ;
    lemma_fields_to_words(f0, f1, f2, f3, f4, f5);
    reveal_with_fuel(fields_error, 7);
    assert(fields_error(fields_of(hi, lo), 0) is None);
    let rf = r_fields.unwrap();
    lemma_value_determines_uuid(rf.hi, rf.lo, hi, lo);
    let ri = r_int.unwrap();
    lemma_value_determines_uuid(ri.hi, ri.lo, hi, lo);
}

} // verus!
