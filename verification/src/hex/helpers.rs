//! The fast hexadecimal codec: digits are read two at a time and written four
//! at a time, as packed words.

use vstd::prelude::*;
use crate::model::{
    all_hex, dashes_before_digit, dashes_in_place, digits_of, has_urn_prefix, hex_pair_value,
    hex_value, hex_word_value, is_hex_digit, lemma_hex_word_two_more, lemma_pair_step, nibble_of,
    packed_hex_word, parse_hex32_text, parse_plain_uuid_text, parse_uuid_text, urn_then_brace_or_end, strip_braces, strip_urn, undash,
    urn_prefix, ascii_lower, hex32_text, word_hex, hex_digit, word_nibble, digit_position,
    lemma_packed_byte, lemma_chunk_nibble, dashed_text, is_dash_position, dashes_before_position,
};
use crate::hex::table::{hex_digit_char, hex_nibble};

verus! {

/// The byte named by the hex digits at `pos` and `pos + 1`, or -1.
fn hex_byte_le(text: &[u8], pos: usize) -> (r: i16)
    requires
        pos + 1 < text@.len(),
    ensures
        r == hex_pair_value(text@[pos as int], text@[pos + 1]),
{
    let hn = hex_nibble(text[pos]);
    let ln = hex_nibble(text[pos + 1]);
    if hn >= 0 && ln >= 0 {
        (hn as i16) * 16 + ln as i16
    } else {
        -1
    }
}

/// The four lower-case hex digits of a 16-bit chunk, packed little-endian.
pub fn hex_word(bytes: u16) -> (w: u64)
    ensures
        w == packed_hex_word(bytes) as u64,
{
    assert(((bytes >> 12u16) & 0xf) < 16 && ((bytes >> 8u16) & 0xf) < 16 && ((bytes >> 4u16)
        & 0xf) < 16 && (bytes & 0xf) < 16) by (bit_vector);
    let d0 = hex_digit_char(((bytes >> 12u16) & 0xf) as u8) as u32;
    let d1 = hex_digit_char(((bytes >> 8u16) & 0xf) as u8) as u32;
    let d2 = hex_digit_char(((bytes >> 4u16) & 0xf) as u8) as u32;
    let d3 = hex_digit_char((bytes & 0xf) as u8) as u32;
    (d0 | (d1 << 8u32) | (d2 << 16u32) | (d3 << 24u32)) as u64
}

/// How many dashes stand before digit k of the dashed form.
pub(crate) fn dashes_before(k: usize) -> (d: usize)
    requires
        k < 32,
    ensures
        d == dashes_before_digit(k as int),
{
    if k < 8 {
        0
    } else if k < 12 {
        1
    } else if k < 16 {
        2
    } else if k < 20 {
        3
    } else {
        4
    }
}

/// Reads the 16 digits `start..start + 16` of a 32- or 36-character form, two
/// at a time, into a word; `None` if one of them is not a hex digit.
fn read_hex_word(text: &[u8], dashed: bool, start: usize) -> (r: Option<u64>)
    requires
        start == 0 || start == 16,
        text@.len() == (if dashed {
            36int
        } else {
            32int
        }),
    ensures
        ({
            let w = digits_of(text@, dashed).subrange(start as int, start + 16);
            &&& r.is_some() == all_hex(w)
            &&& r.is_some() ==> r.unwrap() == hex_word_value(w)
        }),
{
    let ghost d = digits_of(text@, dashed);
    let ghost w = d.subrange(start as int, start + 16);
    let mut acc: u64 = 0;
    let mut i: usize = 0;
    while i < 8
        invariant
            start == 0 || start == 16,
            text@.len() == (if dashed {
                36int
            } else {
                32int
            }),
            d == digits_of(text@, dashed),
            w == d.subrange(start as int, start + 16),
            i <= 8,
            acc == hex_word_value(w.take(2 * i)),
            forall|j: int| 0 <= j < 2 * i ==> #[trigger] is_hex_digit(w[j]),
        decreases 8 - i,
    {
        let k = start + 2 * i;
        let pos = if dashed {
            k + dashes_before(k)
        } else {
            k
        };
        proof {
            if dashed {
                assert(w[2 * i] == undash(text@)[k as int]);
                assert(w[2 * i + 1] == undash(text@)[k + 1]);
            }
            assert(w[2 * i] == text@[pos as int]);
            assert(w[2 * i + 1] == text@[pos + 1]);
        }
        let x = hex_byte_le(text, pos);
        if x < 0 {
            proof {
                assert(!is_hex_digit(w[2 * i]) || !is_hex_digit(w[2 * i + 1]));
            }
            return None;
        }
        proof {
            let h = nibble_of(w[2 * i]);
            let l = nibble_of(w[2 * i + 1]);
            lemma_hex_word_two_more(w, 2 * i);
            lemma_pair_step(acc, h, l);
            assert((h * 16 + l) as u64 == x as u64);
        }
        acc = (acc << 8u64) | (x as u64);
        i += 1;
    }
    proof {
        assert(w.take(16) =~= w);
    }
    Some(acc)
}

/// Parses 32 bare hex digits.
fn parse_hex32(py_str: &[u8], hi: &mut u64, lo: &mut u64) -> (r: i32)
    requires
        py_str@.len() == 32,
    ensures
        r == 0 || r == -1,
        r == 0 <==> parse_hex32_text(py_str@) is Some,
        r == 0 ==> parse_hex32_text(py_str@) == Some((*final(hi), *final(lo))),
        r != 0 ==> *final(hi) == *old(hi) && *final(lo) == *old(lo),
{
    let h = read_hex_word(py_str, false, 0);
    let l = read_hex_word(py_str, false, 16);
    proof {
        let s = py_str@;
        assert(s.subrange(0, 16) =~= s.take(16));
        assert(s.subrange(16, 32) =~= s.skip(16));
        if all_hex(s.take(16)) && all_hex(s.skip(16)) {
            assert forall|i: int| 0 <= i < 32 implies #[trigger] is_hex_digit(s[i]) by {
                if i < 16 {
                    assert(s.take(16)[i] == s[i]);
                } else {
                    assert(s.skip(16)[i - 16] == s[i]);
                }
            }
        }
        if all_hex(s) {
            assert forall|i: int| 0 <= i < 16 implies #[trigger] is_hex_digit(s.take(16)[i]) by {
                assert(s.take(16)[i] == s[i]);
            }
            assert forall|i: int| 0 <= i < 16 implies #[trigger] is_hex_digit(s.skip(16)[i]) by {
                assert(s.skip(16)[i] == s[i + 16]);
            }
        }
    }
    match (h, l) {
        (Some(h), Some(l)) => {
            *hi = h;
            *lo = l;
            0
        },
        _ => -1,
    }
}

/// Parses the dashed 8-4-4-4-12 form.
fn parse_dashed(py_str: &[u8], hi: &mut u64, lo: &mut u64) -> (r: i32)
    requires
        py_str@.len() == 36,
    ensures
        r == 0 || r == -1,
        r == 0 <==> dashes_in_place(py_str@) && parse_hex32_text(undash(py_str@)) is Some,
        r == 0 ==> parse_hex32_text(undash(py_str@)) == Some((*final(hi), *final(lo))),
        r != 0 ==> *final(hi) == *old(hi) && *final(lo) == *old(lo),
{
    if py_str[8] != 0x2du8 || py_str[13] != 0x2du8 || py_str[18] != 0x2du8 || py_str[23] != 0x2du8 {
        return -1;
    }
    let h = read_hex_word(py_str, true, 0);
    let l = read_hex_word(py_str, true, 16);
    proof {
        let s = undash(py_str@);
        assert(s.subrange(0, 16) =~= s.take(16));
        assert(s.subrange(16, 32) =~= s.skip(16));
        if all_hex(s.take(16)) && all_hex(s.skip(16)) {
            assert forall|i: int| 0 <= i < 32 implies #[trigger] is_hex_digit(s[i]) by {
                if i < 16 {
                    assert(s.take(16)[i] == s[i]);
                } else {
                    assert(s.skip(16)[i - 16] == s[i]);
                }
            }
        }
        if all_hex(s) {
            assert forall|i: int| 0 <= i < 16 implies #[trigger] is_hex_digit(s.take(16)[i]) by {
                assert(s.take(16)[i] == s[i]);
            }
            assert forall|i: int| 0 <= i < 16 implies #[trigger] is_hex_digit(s.skip(16)[i]) by {
                assert(s.skip(16)[i] == s[i + 16]);
            }
        }
    }
    match (h, l) {
        (Some(h), Some(l)) => {
            *hi = h;
            *lo = l;
            0
        },
        _ => -1,
    }
}

/// Setting the case bit matches a lower-case letter exactly when lower-casing
/// does.
proof fn lemma_or_lower(c: u8, l: u8)
    requires
        0x61 <= l <= 0x7a,
    ensures
        ((c | 0x20u8) == l) == (ascii_lower(c) == l),
{
    assert(0x61 <= l && l <= 0x7a ==> (((c | 0x20u8) == l) == (c == l || c == (l - 0x20) as u8)))
        by (bit_vector);
}

/// Whether the text begins with `urn:uuid:`, letters in either case.
pub fn is_urn_uuid(py_str: &[u8]) -> (r: bool)
    requires
        py_str@.len() >= 9,
    ensures
        r == has_urn_prefix(py_str@),
{
    let c0 = py_str[0];
    let c1 = py_str[1];
    let c2 = py_str[2];
    let c3 = py_str[3];
    let c4 = py_str[4];
    let c5 = py_str[5];
    let c6 = py_str[6];
    let c7 = py_str[7];
    let c8 = py_str[8];
    proof {
        lemma_or_lower(c0, 0x75u8);
        lemma_or_lower(c1, 0x72u8);
        lemma_or_lower(c2, 0x6eu8);
        lemma_or_lower(c4, 0x75u8);
        lemma_or_lower(c5, 0x75u8);
        lemma_or_lower(c6, 0x69u8);
        lemma_or_lower(c7, 0x64u8);
    }
    let r = (c0 | 0x20) == 0x75u8 && (c1 | 0x20) == 0x72u8 && (c2 | 0x20) == 0x6eu8 && c3 == 0x3au8 && (c4
        | 0x20) == 0x75u8 && (c5 | 0x20) == 0x75u8 && (c6 | 0x20) == 0x69u8 && (c7 | 0x20) == 0x64u8 && c8
        == 0x3au8;
    proof {
        let s = py_str@;
        assert(ascii_lower(s[0]) == ascii_lower(c0));
        if r {
            assert forall|i: int| 0 <= i < 9 implies #[trigger] ascii_lower(s[i]) == urn_prefix()[i] by {
                assert(ascii_lower(s[i]) == ascii_lower(s[i]));
            }
        } else {
            assert(!(ascii_lower(s[0]) == urn_prefix()[0] && ascii_lower(s[1]) == urn_prefix()[1]
                && ascii_lower(s[2]) == urn_prefix()[2] && ascii_lower(s[3]) == urn_prefix()[3]
                && ascii_lower(s[4]) == urn_prefix()[4] && ascii_lower(s[5]) == urn_prefix()[5]
                && ascii_lower(s[6]) == urn_prefix()[6] && ascii_lower(s[7]) == urn_prefix()[7]
                && ascii_lower(s[8]) == urn_prefix()[8]));
        }
    }
    r
}

/// Parses a bare or dashed UUID text: 32 hex digits, or 36 characters with
/// dashes at 8, 13, 18 and 23. The length of the whole text chooses the form,
/// so a text with a `urn:uuid:` prefix (any case) or in braces is refused.
/// Returns 0 and sets `hi`, `lo` on success; returns -1 and leaves them alone
/// otherwise. A text that is `urn:uuid:` alone or followed by a brace is not
/// taken.
pub fn parse_uuid_hex_str(py_str: &[u8], hi: &mut u64, lo: &mut u64) -> (r: i32)
    requires
        !urn_then_brace_or_end(py_str@),
    ensures
        r == 0 || r == -1,
        r == 0 <==> parse_plain_uuid_text(py_str@) is Some,
        r == 0 ==> parse_plain_uuid_text(py_str@) == Some((*final(hi), *final(lo))),
        r != 0 ==> *final(hi) == *old(hi) && *final(lo) == *old(lo),
{
    let len = py_str.len();
    if len >= 9 && is_urn_uuid(py_str) {
        return -1;
    }
    if len >= 2 && py_str[0] == 0x7bu8 && py_str[len - 1] == 0x7du8 {
        return -1;
    }
    assert(strip_braces(strip_urn(py_str@)) == py_str@);
    if len == 32 {
        parse_hex32(py_str, hi, lo)
    } else if len == 36 {
        parse_dashed(py_str, hi, lo)
    } else {
        -1
    }
}

/// The packed digits of the four 16-bit chunks of a word, most significant
/// chunk first.
pub fn hex_words(x: u64) -> (r: [u64; 4])
    ensures
        forall|c: int|
            0 <= c < 4 ==> #[trigger] r[c] == packed_hex_word((x >> ((48 - 16 * c) as u64)) as u16)
                as u64,
{
    let r = [
        hex_word((x >> 48u64) as u16),
        hex_word((x >> 32u64) as u16),
        hex_word((x >> 16u64) as u16),
        hex_word(x as u16),
    ];
    assert(x >> 0u64 == x) by (bit_vector);
    r
}

/// Stores the four bytes of a packed word, lowest byte first, at `pos`.
fn store_packed(buf: &mut [u8], pos: usize, word: u64)
    requires
        pos + 4 <= old(buf)@.len(),
    ensures
        final(buf)@.len() == old(buf)@.len(),
        forall|i: int|
            pos <= i < pos + 4 ==> #[trigger] final(buf)@[i] == (((word >> (8 * (i - pos)) as u64)
                & 0xff) as u8),
        forall|i: int|
            0 <= i < old(buf)@.len() && !(pos <= i < pos + 4) ==> #[trigger] final(buf)@[i]
                == old(buf)@[i],
{
    buf[pos] = (word & 0xff) as u8;
    buf[pos + 1] = ((word >> 8u64) & 0xff) as u8;
    buf[pos + 2] = ((word >> 16u64) & 0xff) as u8;
    buf[pos + 3] = ((word >> 24u64) & 0xff) as u8;
    assert(word >> 0u64 == word) by (bit_vector);
}

/// Writes the 32 digits of a UUID at their places in the 32-digit form, or in
/// the dashed form, leaving the dash places alone.
fn store_chunks(high: u64, low: u64, buf: &mut [u8], dashed: bool)
    requires
        old(buf)@.len() >= (if dashed {
            36int
        } else {
            32int
        }),
    ensures
        final(buf)@.len() == old(buf)@.len(),
        forall|k: int|
            0 <= k < 32 ==> #[trigger] final(buf)@[digit_position(dashed, k)] == hex32_text(
                high,
                low,
            )[k],
        forall|i: int|
            0 <= i < old(buf)@.len() && (i >= digit_position(dashed, 32) || (dashed
                && is_dash_position(i))) ==> #[trigger] final(buf)@[i] == old(buf)@[i],
{
    let hw = hex_words(high);
    let lw = hex_words(low);
    let ghost start = buf@;
    let mut g: usize = 0;
    while g < 8
        invariant
            g <= 8,
            start.len() >= (if dashed {
                36int
            } else {
                32int
            }),
            buf@.len() == start.len(),
            forall|c: int|
                0 <= c < 4 ==> #[trigger] hw[c] == packed_hex_word(
                    (high >> ((48 - 16 * c) as u64)) as u16,
                ) as u64,
            forall|c: int|
                0 <= c < 4 ==> #[trigger] lw[c] == packed_hex_word(
                    (low >> ((48 - 16 * c) as u64)) as u16,
                ) as u64,
            forall|k: int|
                0 <= k < 4 * g ==> #[trigger] buf@[digit_position(dashed, k)] == hex32_text(
                    high,
                    low,
                )[k],
            forall|i: int|
                0 <= i < start.len() && (i >= digit_position(dashed, 4 * g as int) || (dashed
                    && is_dash_position(i))) ==> #[trigger] buf@[i] == start[i],
        decreases 8 - g,
    {
        let k0 = 4 * g;
        let pos = if dashed {
            k0 + dashes_before(k0)
        } else {
            k0
        };
        let word = if g < 4 {
            hw[g]
        } else {
            lw[g - 4]
        };
        let ghost before = buf@;
        store_packed(buf, pos, word);
        proof {
            let c: int = if g < 4 {
                g as int
            } else {
                g - 4
            };
            let w: u64 = if g < 4 {
                high
            } else {
                low
            };
            assert(word == packed_hex_word((w >> ((48 - 16 * c) as u64)) as u16) as u64);
            assert forall|j: int| 0 <= j < 4 implies #[trigger] buf@[pos + j] == hex32_text(
                high,
                low,
            )[4 * g + j] by {
                lemma_packed_byte((w >> ((48 - 16 * c) as u64)) as u16, j as u64);
                lemma_chunk_nibble(w, c, j);
                assert(((8 * j) as u64) == 8 * (j as u64));
                assert(((12 - 4 * j) as u16) == (12 - 4 * (j as u64)) as u16);
                if g < 4 {
                    assert(hex32_text(high, low)[4 * g + j] == word_hex(high)[4 * g + j]);
                } else {
                    assert(hex32_text(high, low)[4 * g + j] == word_hex(low)[4 * (g - 4) + j]);
                }
            }
            assert forall|k: int| 0 <= k < 4 * (g + 1) implies #[trigger] buf@[digit_position(
                dashed,
                k,
            )] == hex32_text(high, low)[k] by {
                if k >= 4 * g {
                    assert(digit_position(dashed, k) == pos + (k - 4 * g));
                } else {
                    assert(digit_position(dashed, k) < pos);
                    assert(buf@[digit_position(dashed, k)] == before[digit_position(dashed, k)]);
                }
            }
        }
        g += 1;
    }
}

/// Writes the 32 lower-case hex digits of a UUID into the first 32 bytes of
/// `buf` (Python's `UUID.hex`).
pub fn fmt_hex32(high: u64, low: u64, buf: &mut [u8])
    requires
        old(buf)@.len() >= 32,
    ensures
        final(buf)@.len() == old(buf)@.len(),
        final(buf)@.subrange(0, 32) == hex32_text(high, low),
        final(buf)@.subrange(32, old(buf)@.len() as int) == old(buf)@.subrange(
            32,
            old(buf)@.len() as int,
        ),
{
    let ghost start = buf@;
    store_chunks(high, low, buf, false);
    proof {
        assert forall|k: int| 0 <= k < 32 implies #[trigger] buf@.subrange(0, 32)[k] == hex32_text(
            high,
            low,
        )[k] by {
            assert(digit_position(false, k) == k);
        }
        assert(buf@.subrange(0, 32) =~= hex32_text(high, low));
        assert(buf@.subrange(32, start.len() as int) =~= start.subrange(32, start.len() as int));
    }
}

/// Writes the canonical dashed form `xxxxxxxx-xxxx-xxxx-xxxx-xxxxxxxxxxxx` of a
/// UUID into the first 36 bytes of `buf` (Python's `str(UUID)`).
pub fn fmt_dashed(high: u64, low: u64, buf: &mut [u8])
    requires
        old(buf)@.len() >= 36,
    ensures
        final(buf)@.len() == old(buf)@.len(),
        final(buf)@.subrange(0, 36) == dashed_text(high, low),
        final(buf)@.subrange(36, old(buf)@.len() as int) == old(buf)@.subrange(
            36,
            old(buf)@.len() as int,
        ),
{
    let ghost start = buf@;
    store_chunks(high, low, buf, true);
    let ghost mid = buf@;
    buf[8] = 0x2du8;
    buf[13] = 0x2du8;
    buf[18] = 0x2du8;
    buf[23] = 0x2du8;
    proof {
        assert forall|j: int| 0 <= j < 36 implies #[trigger] buf@.subrange(0, 36)[j] == dashed_text(
            high,
            low,
        )[j] by {
            if !is_dash_position(j) {
                let k = j - dashes_before_position(j);
                assert(digit_position(true, k) == j);
                assert(mid[digit_position(true, k)] == hex32_text(high, low)[k]);
            }
        }
        assert(buf@.subrange(0, 36) =~= dashed_text(high, low));
        assert(buf@.subrange(36, start.len() as int) =~= start.subrange(36, start.len() as int));
    }
}

} // verus!
