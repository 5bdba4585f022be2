//! The plain hexadecimal codec: one byte, two digits, at a time.

use vstd::prelude::*;
use crate::hex::helpers::dashes_before;
use crate::hex::table::{hex_digit_char, hex_nibble};
use crate::model::{
    all_hex, ascii_lower, dashed_text, dashes_before_position, digit_position, has_braces,
    has_urn_prefix, hex32_text, hex_digit, hex_value, is_dash_position, is_hex_digit,
    lemma_byte_nibbles, lemma_digit_pairs_word, parse_hex32_text, parse_uuid_text, strip_braces,
    strip_urn, undash, urn_prefix, word_byte, word_hex, words_of_bytes,
};
use crate::parse::bytes_to_hilo;

verus! {

/// Writes the two lower-case hex digits of `byte` at `pos` and `pos + 1`.
pub fn hex_pair(buf: &mut [u8], pos: usize, byte: u8)
    requires
        pos + 1 < old(buf)@.len(),
    ensures
        final(buf)@ == old(buf)@.update(pos as int, hex_digit(byte >> 4u8)).update(
            pos + 1,
            hex_digit(byte & 0xf),
        ),
{
    assert((byte >> 4u8) < 16 && (byte & 0xf) < 16) by (bit_vector);
    buf[pos] = hex_digit_char(byte >> 4u8);
    buf[pos + 1] = hex_digit_char(byte & 0xf);
}

/// Writes the digits of the 16 bytes of a UUID at their places in the
/// 32-digit form, or in the dashed form, leaving the dash places alone.
fn store_pairs(hi: u64, lo: u64, buf: &mut [u8], dashed: bool)
    requires
        old(buf)@.len() >= (if dashed {
            36int
        } else {
            32int
        }),
    ensures
        final(buf)@.len() == old(buf)@.len(),
        forall|k: int|
            0 <= k < 32 ==> #[trigger] final(buf)@[digit_position(dashed, k)] == hex32_text(
                hi,
                lo,
            )[k],
        forall|i: int|
            0 <= i < old(buf)@.len() && (i >= digit_position(dashed, 32) || (dashed
                && is_dash_position(i))) ==> #[trigger] final(buf)@[i] == old(buf)@[i],
{
    let ghost start = buf@;
    let mut b: usize = 0;
    while b < 16
        invariant
            b <= 16,
            start.len() >= (if dashed {
                36int
            } else {
                32int
            }),
            buf@.len() == start.len(),
            forall|k: int|
                0 <= k < 2 * b ==> #[trigger] buf@[digit_position(dashed, k)] == hex32_text(
                    hi,
                    lo,
                )[k],
            forall|i: int|
                0 <= i < start.len() && (i >= digit_position(dashed, 2 * b as int) || (dashed
                    && is_dash_position(i))) ==> #[trigger] buf@[i] == start[i],
        decreases 16 - b,
    {
        let k0 = 2 * b;
        let pos = if dashed {
            k0 + dashes_before(k0)
        } else {
            k0
        };
        let w = if b < 8 {
            hi
        } else {
            lo
        };
        let c = if b < 8 {
            b
        } else {
            b - 8
        };
        let byte = ((w >> ((56 - 8 * c) as u64)) & 0xff) as u8;
        let ghost before = buf@;
        hex_pair(buf, pos, byte);
        proof {
            assert(byte == word_byte(w, c as int));
            lemma_byte_nibbles(w, c as int);
            if b < 8 {
                assert(hex32_text(hi, lo)[2 * b] == word_hex(hi)[2 * c]);
                assert(hex32_text(hi, lo)[2 * b + 1] == word_hex(hi)[2 * c + 1]);
            } else {
                assert(hex32_text(hi, lo)[2 * b] == word_hex(lo)[2 * c]);
                assert(hex32_text(hi, lo)[2 * b + 1] == word_hex(lo)[2 * c + 1]);
            }
            assert(digit_position(dashed, 2 * b + 1) == pos + 1);
            assert forall|k: int| 0 <= k < 2 * (b + 1) implies #[trigger] buf@[digit_position(
                dashed,
                k,
            )] == hex32_text(hi, lo)[k] by {
                if k < 2 * b {
                    assert(digit_position(dashed, k) < pos);
                    assert(buf@[digit_position(dashed, k)] == before[digit_position(dashed, k)]);
                }
            }
        }
        b += 1;
    }
}

/// Writes the canonical dashed form of a UUID into the first 36 bytes of `buf`.
pub fn fmt_dashed(hi: u64, lo: u64, buf: &mut [u8])
    requires
        old(buf)@.len() >= 36,
    ensures
        final(buf)@.len() == old(buf)@.len(),
        final(buf)@.subrange(0, 36) == dashed_text(hi, lo),
        final(buf)@.subrange(36, old(buf)@.len() as int) == old(buf)@.subrange(
            36,
            old(buf)@.len() as int,
        ),
{
    let ghost start = buf@;
    store_pairs(hi, lo, buf, true);
    let ghost mid = buf@;
    buf[8] = 0x2du8;
    buf[13] = 0x2du8;
    buf[18] = 0x2du8;
    buf[23] = 0x2du8;
    proof {
        assert forall|j: int| 0 <= j < 36 implies #[trigger] buf@.subrange(0, 36)[j] == dashed_text(
            hi,
            lo,
        )[j] by {
            if !is_dash_position(j) {
                let k = j - dashes_before_position(j);
                assert(digit_position(true, k) == j);
                assert(mid[digit_position(true, k)] == hex32_text(hi, lo)[k]);
            }
        }
        assert(buf@.subrange(0, 36) =~= dashed_text(hi, lo));
        assert(buf@.subrange(36, start.len() as int) =~= start.subrange(36, start.len() as int));
    }
}

/// Writes the 32 lower-case hex digits of a UUID into the first 32 bytes of `buf`.
pub fn fmt_hex32(hi: u64, lo: u64, buf: &mut [u8])
    requires
        old(buf)@.len() >= 32,
    ensures
        final(buf)@.len() == old(buf)@.len(),
        final(buf)@.subrange(0, 32) == hex32_text(hi, lo),
        final(buf)@.subrange(32, old(buf)@.len() as int) == old(buf)@.subrange(
            32,
            old(buf)@.len() as int,
        ),
{
    let ghost start = buf@;
    store_pairs(hi, lo, buf, false);
    proof {
        assert forall|k: int| 0 <= k < 32 implies #[trigger] buf@.subrange(0, 32)[k] == hex32_text(
            hi,
            lo,
        )[k] by {
            assert(digit_position(false, k) == k);
        }
        assert(buf@.subrange(0, 32) =~= hex32_text(hi, lo));
        assert(buf@.subrange(32, start.len() as int) =~= start.subrange(32, start.len() as int));
    }
}

/// Parses the first 32 bytes of `text` as hex digits, two per byte. Returns 0
/// and sets `hi`, `lo` on success; returns -1 and leaves them alone otherwise.
pub fn parse_hex32(text: &[u8], hi: &mut u64, lo: &mut u64) -> (r: i32)
    requires
        text@.len() >= 32,
    ensures
        r == 0 || r == -1,
        r == 0 <==> parse_hex32_text(text@.subrange(0, 32)) is Some,
        r == 0 ==> parse_hex32_text(text@.subrange(0, 32)) == Some((*final(hi), *final(lo))),
        r != 0 ==> *final(hi) == *old(hi) && *final(lo) == *old(lo),
{
    let ghost t = text@.subrange(0, 32);
    let mut bytes = [0u8; 16];
    let mut i: usize = 0;
    while i < 16
        invariant
            text@.len() >= 32,
            t == text@.subrange(0, 32),
            i <= 16,
            forall|j: int| 0 <= j < 2 * i ==> #[trigger] is_hex_digit(t[j]),
            forall|j: int|
                0 <= j < i ==> #[trigger] bytes@[j] as int == hex_value(t[2 * j]) * 16 + hex_value(
                    t[2 * j + 1],
                ),
        decreases 16 - i,
    {
        let hn = hex_nibble(text[i * 2]);
        let ln = hex_nibble(text[i * 2 + 1]);
        if hn < 0 || ln < 0 {
            proof {
                assert(!is_hex_digit(t[2 * i]) || !is_hex_digit(t[2 * i + 1]));
            }
            return -1;
        }
        bytes[i] = (hn as u8) * 16 + ln as u8;
        i += 1;
    }
    proof {
        let bs = bytes@;
        lemma_digit_pairs_word(t.subrange(0, 16), bs.subrange(0, 8), 8);
        lemma_digit_pairs_word(t.subrange(16, 32), bs.subrange(8, 16), 8);
        assert(t.subrange(0, 16).take(16) =~= t.take(16));
        assert(t.subrange(16, 32).take(16) =~= t.skip(16));
        assert(bs.subrange(0, 8).take(8) =~= bs.subrange(0, 8));
        assert(bs.subrange(8, 16).take(8) =~= bs.subrange(8, 16));
    }
    bytes_to_hilo(&bytes, hi, lo);
    0
}

/// ASCII lower-casing of one byte.
fn to_ascii_lower(c: u8) -> (r: u8)
    ensures
        r == ascii_lower(c),
{
    if 65 <= c && c <= 90 {
        c + 32
    } else {
        c
    }
}

/// Whether the first nine bytes spell `urn:uuid:`, letters in either case.
fn starts_with_urn(text: &[u8]) -> (r: bool)
    requires
        text@.len() >= 9,
    ensures
        r == has_urn_prefix(text@),
{
    let prefix: [u8; 9] = [117, 114, 110, 58, 117, 117, 105, 100, 58];
    assert(prefix@ =~= urn_prefix());
    let mut i: usize = 0;
    while i < 9
        invariant
            text@.len() >= 9,
            prefix@ == urn_prefix(),
            i <= 9,
            forall|j: int| 0 <= j < i ==> #[trigger] ascii_lower(text@[j]) == urn_prefix()[j],
        decreases 9 - i,
    {
        if to_ascii_lower(text[i]) != prefix[i] {
            return false;
        }
        i += 1;
    }
    true
}

/// Parses a UUID text as Python's `uuid.UUID(hex)` does, by first gathering
/// its 32 digits: a `urn:uuid:` prefix in any case and braces are taken off
/// first, and the length of what remains decides between the bare and the
/// dashed form. Returns 0 and sets `hi`, `lo` on success; returns -1 and
/// leaves them alone otherwise.
pub fn parse_uuid_hex_str(str: &[u8], hi: &mut u64, lo: &mut u64) -> (r: i32)
    ensures
        r == 0 || r == -1,
        r == 0 <==> parse_uuid_text(str@) is Some,
        r == 0 ==> parse_uuid_text(str@) == Some((*final(hi), *final(lo))),
        r != 0 ==> *final(hi) == *old(hi) && *final(lo) == *old(lo),
{
    let mut s = str;
    if s.len() >= 9 && starts_with_urn(s) {
        s = vstd::slice::slice_subrange(s, 9, s.len());
        assert(s@ =~= str@.skip(9));
    }
    assert(s@ == strip_urn(str@));
    if s.len() >= 2 && s[0] == 0x7bu8 && s[s.len() - 1] == 0x7du8 {
        let n = s.len();
        s = vstd::slice::slice_subrange(s, 1, n - 1);
    }
    assert(s@ == strip_braces(strip_urn(str@)));
    let len = s.len();
    if len == 32 {
        assert(s@.subrange(0, 32) =~= s@);
        parse_hex32(s, hi, lo)
    } else if len == 36 {
        if s[8] != 0x2du8 || s[13] != 0x2du8 || s[18] != 0x2du8 || s[23] != 0x2du8 {
            return -1;
        }
        let mut flat = [0u8; 32];
        let mut k: usize = 0;
        while k < 32
            invariant
                s@.len() == 36,
                k <= 32,
                forall|j: int| 0 <= j < k ==> #[trigger] flat@[j] == undash(s@)[j],
            decreases 32 - k,
        {
            flat[k] = s[k + dashes_before(k)];
            k += 1;
        }
        assert(flat@.subrange(0, 32) =~= undash(s@));
        parse_hex32(&flat, hi, lo)
    } else {
        -1
    }
}

} // verus!
