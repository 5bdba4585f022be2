//! The mathematical model of a UUID that the contracts speak of: its 128-bit
//! value, its sixteen big-endian bytes, its nibbles, and the text forms that
//! name it, together with the lemmas that relate them.

use vstd::prelude::*;

verus! {

/// 2^64, the weight of the high half of a UUID.
pub open spec fn two_pow_64() -> int {
    0x1_0000_0000_0000_0000
}

/// The 128-bit integer a UUID stands for, given its high and low halves.
pub open spec fn uuid_value(hi: u64, lo: u64) -> int {
    hi as int * two_pow_64() + lo as int
}

/// Lower-case hexadecimal digit (ASCII) of a nibble below 16.
pub open spec fn hex_digit(n: u8) -> u8 {
    if n < 10 {
        (n + 48) as u8
    } else {
        (n + 87) as u8
    }
}

/// Value of an ASCII hexadecimal digit of either case, or -1 for any other byte.
pub open spec fn hex_value(c: u8) -> int {
    if 48 <= c && c <= 57 {
        c - 48
    } else if 97 <= c && c <= 102 {
        c - 87
    } else if 65 <= c && c <= 70 {
        c - 55
    } else {
        -1
    }
}

pub open spec fn is_hex_digit(c: u8) -> bool {
    hex_value(c) >= 0
}

pub open spec fn all_hex(s: Seq<u8>) -> bool {
    forall|i: int| 0 <= i < s.len() ==> #[trigger] is_hex_digit(s[i])
}

/// Value of a digit as a 64-bit word (meaningful for hex digits).
pub open spec fn nibble_of(c: u8) -> u64 {
    hex_value(c) as u64
}

/// Value of a run of hex digits, most significant first, kept in 64 bits.
pub open spec fn hex_word_value(s: Seq<u8>) -> u64
    decreases s.len(),
{
    if s.len() == 0 {
        0
    } else {
        (hex_word_value(s.drop_last()) << 4u64) | nibble_of(s.last())
    }
}

/// Value of a run of bytes, most significant first (big-endian), kept in 64 bits.
pub open spec fn be_word_value(s: Seq<u8>) -> u64
    decreases s.len(),
{
    if s.len() == 0 {
        0
    } else {
        (be_word_value(s.drop_last()) << 8u64) | (s.last() as u64)
    }
}

/// The k-th byte (0 = most significant) of a 64-bit word, k < 8.
pub open spec fn word_byte(w: u64, k: int) -> u8 {
    ((w >> ((56 - 8 * k) as u64)) & 0xff) as u8
}

/// The eight big-endian bytes of a word.
pub open spec fn word_bytes(w: u64) -> Seq<u8> {
    Seq::new(8, |k: int| word_byte(w, k))
}

/// The sixteen big-endian bytes of a UUID.
pub open spec fn uuid_bytes(hi: u64, lo: u64) -> Seq<u8> {
    word_bytes(hi) + word_bytes(lo)
}

/// The k-th nibble (0 = most significant) of a 64-bit word, k < 16.
pub open spec fn word_nibble(w: u64, k: int) -> u8 {
    ((w >> ((60 - 4 * k) as u64)) & 0xf) as u8
}

/// The sixteen lower-case hex digits of a word.
pub open spec fn word_hex(w: u64) -> Seq<u8> {
    Seq::new(16, |k: int| hex_digit(word_nibble(w, k)))
}

/// The 32 lower-case hex digits of a UUID (Python's `UUID.hex`).
pub open spec fn hex32_text(hi: u64, lo: u64) -> Seq<u8> {
    word_hex(hi) + word_hex(lo)
}

/// Whether position j of the 36-character form holds a dash.
pub open spec fn is_dash_position(j: int) -> bool {
    j == 8 || j == 13 || j == 18 || j == 23
}

/// How many dashes stand before digit k (k < 32) of the 36-character form.
pub open spec fn dashes_before_digit(k: int) -> int {
    if k < 8 {
        0
    } else if k < 12 {
        1
    } else if k < 16 {
        2
    } else if k < 20 {
        3
    } else {
        4
    }
}

/// How many dashes stand before position j (not a dash) of the 36-character form.
pub open spec fn dashes_before_position(j: int) -> int {
    if j < 8 {
        0
    } else if j < 13 {
        1
    } else if j < 18 {
        2
    } else if j < 23 {
        3
    } else {
        4
    }
}

/// The canonical 36-character form `xxxxxxxx-xxxx-xxxx-xxxx-xxxxxxxxxxxx`
/// (Python's `str(UUID)`).
pub open spec fn dashed_text(hi: u64, lo: u64) -> Seq<u8> {
    Seq::new(
        36,
        |j: int|
            if is_dash_position(j) {
                45u8
            } else {
                hex32_text(hi, lo)[j - dashes_before_position(j)]
            },
    )
}

/// The bytes of `urn:uuid:`.
pub open spec fn urn_prefix() -> Seq<u8> {
    seq![117u8, 114, 110, 58, 117, 117, 105, 100, 58]
}

/// ASCII lower-casing of one byte.
pub open spec fn ascii_lower(c: u8) -> u8 {
    if 65 <= c && c <= 90 {
        (c + 32) as u8
    } else {
        c
    }
}

/// Whether `s` begins with `urn:uuid:`, letters compared without regard to case.
pub open spec fn has_urn_prefix(s: Seq<u8>) -> bool {
    s.len() >= 9 && forall|i: int| 0 <= i < 9 ==> #[trigger] ascii_lower(s[i]) == urn_prefix()[i]
}

pub open spec fn strip_urn(s: Seq<u8>) -> Seq<u8> {
    if has_urn_prefix(s) {
        s.skip(9)
    } else {
        s
    }
}

pub open spec fn has_braces(s: Seq<u8>) -> bool {
    s.len() >= 2 && s[0] == 123u8 && s[s.len() - 1] == 125u8
}

pub open spec fn strip_braces(s: Seq<u8>) -> Seq<u8> {
    if has_braces(s) {
        s.subrange(1, s.len() - 1)
    } else {
        s
    }
}

pub open spec fn dashes_in_place(s: Seq<u8>) -> bool {
    s[8] == 45u8 && s[13] == 45u8 && s[18] == 45u8 && s[23] == 45u8
}

/// The 32 digits of a 36-character dashed form, dashes removed.
pub open spec fn undash(s: Seq<u8>) -> Seq<u8> {
    Seq::new(32, |k: int| s[k + dashes_before_digit(k)])
}

/// The UUID named by 32 hex digits, if they all are hex digits.
pub open spec fn parse_hex32_text(s: Seq<u8>) -> Option<(u64, u64)> {
    if s.len() == 32 && all_hex(s) {
        Some((hex_word_value(s.take(16)), hex_word_value(s.skip(16))))
    } else {
        None
    }
}

/// The UUID named by a text, as Python's `uuid.UUID(hex)` reads it: an optional
/// `urn:uuid:` prefix (any case), optional braces, then 32 hex digits of either
/// case, bare or dashed as 8-4-4-4-12.
pub open spec fn parse_uuid_text(s: Seq<u8>) -> Option<(u64, u64)> {
    let t = strip_braces(strip_urn(s));
    if t.len() == 32 {
        parse_hex32_text(t)
    } else if t.len() == 36 && dashes_in_place(t) {
        parse_hex32_text(undash(t))
    } else {
        None
    }
}

/// A text that begins `urn:uuid:` and then ends or goes on with a brace: the
/// bare-text reading below is not defined on it.
pub open spec fn urn_then_brace_or_end(s: Seq<u8>) -> bool {
    has_urn_prefix(s) && (s.len() == 9 || s[9] == 123u8)
}

/// The halves a bare or dashed UUID text names: 32 hex digits, or 36
/// characters with dashes at 8, 13, 18 and 23. A text with a `urn:uuid:`
/// prefix or in braces names none.
pub open spec fn parse_plain_uuid_text(s: Seq<u8>) -> Option<(u64, u64)> {
    if has_urn_prefix(s) || has_braces(s) {
        None
    } else {
        parse_uuid_text(s)
    }
}


/// The four hex digits of a 16-bit chunk packed little-endian into a word:
/// the most significant digit in the lowest byte, so that storing the word
/// little-endian writes the digits in reading order.
pub open spec fn packed_hex_word(x: u16) -> u32 {
    (hex_digit(((x >> 12u16) & 0xf) as u8) as u32) | ((hex_digit(((x >> 8u16) & 0xf) as u8) as u32)
        << 8u32) | ((hex_digit(((x >> 4u16) & 0xf) as u8) as u32) << 16u32) | ((hex_digit(
        (x & 0xf) as u8,
    ) as u32) << 24u32)
}

/// The byte that two hex digits name (first digit high), or -1 if either is
/// not a hex digit.
pub open spec fn hex_pair_value(first: u8, second: u8) -> int {
    if is_hex_digit(first) && is_hex_digit(second) {
        hex_value(first) * 16 + hex_value(second)
    } else {
        -1
    }
}


/// 2^30, the base of the digits of a Python integer.
pub open spec fn digit_base() -> int {
    0x4000_0000
}

/// Value of little-endian base-2^30 digits (digit 0 least significant), as a
/// Python integer holds them.
pub open spec fn digits_value(d: Seq<u32>) -> int
    decreases d.len(),
{
    if d.len() == 0 {
        0
    } else {
        d[0] + digit_base() * digits_value(d.drop_first())
    }
}

/// The value of five base-2^30 digits.
pub open spec fn five_digits_value(d0: int, d1: int, d2: int, d3: int, d4: int) -> int {
    d0 + digit_base() * (d1 + digit_base() * (d2 + digit_base() * (d3 + digit_base() * d4)))
}

/// The 16 bytes in `bytes_le` order: the first three fields little-endian.
pub open spec fn le_index(i: int) -> int {
    if i < 4 {
        3 - i
    } else if i < 6 {
        9 - i
    } else if i < 8 {
        13 - i
    } else {
        i
    }
}

pub open spec fn le_reorder(s: Seq<u8>) -> Seq<u8> {
    Seq::new(16, |i: int| s[le_index(i)])
}

/// The widths of the six fields `(time_low, time_mid, time_hi_version,
/// clock_seq_hi_variant, clock_seq_low, node)`, as largest values.
pub open spec fn field_limit(i: int) -> u64 {
    if i == 0 {
        0xFFFF_FFFF
    } else if i == 1 || i == 2 {
        0xFFFF
    } else if i == 3 || i == 4 {
        0xFF
    } else {
        0xFFFF_FFFF_FFFF
    }
}

/// The 128-bit value of six fields, as Python's `UUID(fields=...)` defines it.
pub open spec fn fields_value(p0: int, p1: int, p2: int, p3: int, p4: int, p5: int) -> int {
    p0 * 0x1_0000_0000_0000_0000_0000_0000 + p1 * 0x1_0000_0000_0000_0000_0000 + p2
        * 0x1_0000_0000_0000_0000 + p3 * 0x100_0000_0000_0000 + p4 * 0x1_0000_0000_0000 + p5
}


/// The two halves named by sixteen big-endian bytes.
pub open spec fn words_of_bytes(s: Seq<u8>) -> (u64, u64) {
    (be_word_value(s.subrange(0, 8)), be_word_value(s.subrange(8, 16)))
}

/// Digit k of a run of base-2^30 digits, zero past its end.
pub open spec fn digit_at(d: Seq<u32>, k: int) -> int {
    if 0 <= k < d.len() {
        d[k] as int
    } else {
        0
    }
}


/// The canonical lower-case form of a run of hex digits.
pub open spec fn lower_digits(d: Seq<u8>) -> Seq<u8> {
    Seq::new(d.len(), |i: int| hex_digit(hex_value(d[i]) as u8))
}

/// The 32 digits a text gives, once any `urn:uuid:` prefix, braces and dashes
/// are set aside.
pub open spec fn digits_read(s: Seq<u8>) -> Seq<u8> {
    let t = strip_braces(strip_urn(s));
    if t.len() == 36 {
        undash(t)
    } else {
        t
    }
}

// ---------------------------------------------------------------------------
// Lemmas
/// Position of digit k (k < 32) in the 32-digit form, or in the 36-character
/// dashed form.
pub open spec fn digit_position(dashed: bool, k: int) -> int {
    if dashed {
        k + dashes_before_digit(k)
    } else {
        k
    }
}

/// The 32 digits of a 32- or 36-character form.
pub open spec fn digits_of(s: Seq<u8>, dashed: bool) -> Seq<u8> {
    if dashed {
        undash(s)
    } else {
        s
    }
}

/// Two accumulation steps of one hex digit each make one step of the byte
/// they name.
pub proof fn lemma_pair_step(acc: u64, h: u64, l: u64)
    requires
        h < 16,
        l < 16,
    ensures
        ((((acc << 4u64) | h) << 4u64) | l) == (acc << 8u64) | ((h * 16 + l) as u64),
{
    assert(h < 16 && l < 16 ==> ((((acc << 4u64) | h) << 4u64) | l) == (acc << 8u64) | ((h * 16
        + l) as u64)) by (bit_vector);
}

/// Reading 2k hex digits two at a time, as the bytes they name, gives the
/// same word as reading them one at a time.
pub proof fn lemma_digit_pairs_word(u: Seq<u8>, b: Seq<u8>, k: int)
    requires
        0 <= k,
        2 * k <= u.len(),
        k <= b.len(),
        forall|i: int| 0 <= i < 2 * k ==> #[trigger] is_hex_digit(u[i]),
        forall|i: int|
            0 <= i < k ==> #[trigger] b[i] as int == hex_value(u[2 * i]) * 16 + hex_value(
                u[2 * i + 1],
            ),
    ensures
        be_word_value(b.take(k)) == hex_word_value(u.take(2 * k)),
    decreases k,
{
    if k > 0 {
        lemma_digit_pairs_word(u, b, k - 1);
        let t2 = u.take(2 * k);
        assert(t2.drop_last() =~= u.take(2 * k - 1));
        assert(u.take(2 * k - 1).drop_last() =~= u.take(2 * (k - 1)));
        assert(b.take(k).drop_last() =~= b.take(k - 1));
        assert(is_hex_digit(u[2 * (k - 1)]));
        assert(is_hex_digit(u[2 * (k - 1) + 1]));
        assert(b[k - 1] as int == hex_value(u[2 * (k - 1)]) * 16 + hex_value(u[2 * (k - 1) + 1]));
        let acc = hex_word_value(u.take(2 * (k - 1)));
        let h = nibble_of(u[2 * (k - 1)]);
        let l = nibble_of(u[2 * (k - 1) + 1]);
        assert(h < 16 && l < 16);
        lemma_pair_step(acc, h, l);
        assert(hex_word_value(u.take(2 * k - 1)) == (acc << 4u64) | h);
        assert(hex_word_value(t2) == (hex_word_value(u.take(2 * k - 1)) << 4u64) | l);
        assert((h * 16 + l) as u64 == b[k - 1] as u64);
        assert(be_word_value(b.take(k)) == (be_word_value(b.take(k - 1)) << 8u64) | (b[k
            - 1] as u64));
    } else {
        assert(b.take(0) =~= Seq::<u8>::empty());
        assert(u.take(0) =~= Seq::<u8>::empty());
    }
}


/// Unfolding two digits of a hex word.
pub proof fn lemma_hex_word_two_more(w: Seq<u8>, m: int)
    requires
        0 <= m,
        m + 2 <= w.len(),
    ensures
        hex_word_value(w.take(m + 2)) == (((hex_word_value(w.take(m)) << 4u64) | nibble_of(w[m]))
            << 4u64) | nibble_of(w[m + 1]),
{
    assert(w.take(m + 2).drop_last() =~= w.take(m + 1));
    assert(w.take(m + 1).drop_last() =~= w.take(m));
    assert(w.take(m + 2).last() == w[m + 1]);
    assert(w.take(m + 1).last() == w[m]);
    assert(hex_word_value(w.take(m + 1)) == (hex_word_value(w.take(m)) << 4u64) | nibble_of(w[m]));
    assert(hex_word_value(w.take(m + 2)) == (hex_word_value(w.take(m + 1)) << 4u64) | nibble_of(
        w[m + 1],
    ));
}

/// Byte j of a packed word holds the j-th digit (most significant first) of
/// its 16-bit chunk.
pub proof fn lemma_packed_byte(x: u16, j: u64)
    requires
        j < 4,
    ensures
        ((((packed_hex_word(x) as u64) >> (8 * j)) & 0xff) as u8) == hex_digit(
            ((x >> ((12 - 4 * j) as u16)) & 0xf) as u8,
        ),
{
    assert(j < 4 ==> ((((packed_hex_word(x) as u64) >> (8 * j)) & 0xff) as u8) == hex_digit(
        ((x >> ((12 - 4 * j) as u16)) & 0xf) as u8,
    )) by (bit_vector);
}

/// Nibble j of 16-bit chunk c of a word is nibble 4c + j of the word.
pub proof fn lemma_chunk_nibble(w: u64, c: int, j: int)
    requires
        0 <= c < 4,
        0 <= j < 4,
    ensures
        (((((w >> ((48 - 16 * c) as u64)) as u16) >> ((12 - 4 * j) as u16)) & 0xf) as u8)
            == word_nibble(w, 4 * c + j),
{
    let cs: u64 = (48 - 16 * c) as u64;
    let js: u16 = (12 - 4 * j) as u16;
    let ns: u64 = (60 - 4 * (4 * c + j)) as u64;
    assert(ns == cs + (js as u64));
    assert(cs <= 48 && js <= 12 && ns == cs + (js as u64) ==> (((((w >> cs) as u16) >> js) & 0xf)
        as u8) == (((w >> ns) & 0xf) as u8)) by (bit_vector);
}

/// The high nibble of byte i of a word is nibble 2i, the low nibble is 2i + 1.
pub proof fn lemma_byte_nibbles(w: u64, i: int)
    requires
        0 <= i < 8,
    ensures
        word_byte(w, i) >> 4u8 == word_nibble(w, 2 * i),
        word_byte(w, i) & 0xf == word_nibble(w, 2 * i + 1),
{
    let bs: u64 = (56 - 8 * i) as u64;
    let hs: u64 = (60 - 4 * (2 * i)) as u64;
    let ls: u64 = (60 - 4 * (2 * i + 1)) as u64;
    assert(hs == bs + 4 && ls == bs);
    assert(bs <= 56 && hs == bs + 4 ==> ((((w >> bs) & 0xff) as u8) >> 4u8) == (((w >> hs) & 0xf)
        as u8)) by (bit_vector);
    assert(((((w >> bs) & 0xff) as u8) & 0xf) == (((w >> bs) & 0xf) as u8)) by (bit_vector);
}

// ---------------------------------------------------------------------------

pub proof fn lemma_nibble_step(w: u64, s: u64)
    requires
        s <= 56,
    ensures
        ((w >> (s + 4)) << 4u64) | ((w >> s) & 0xf) == w >> s,
{
    assert(s <= 56 ==> ((w >> (s + 4)) << 4u64) | ((w >> s) & 0xf) == w >> s) by (bit_vector);
}

pub proof fn lemma_byte_step(w: u64, s: u64)
    requires
        s <= 48,
    ensures
        ((w >> (s + 8)) << 8u64) | ((((w >> s) & 0xff) as u8) as u64) == w >> s,
{
    assert(s <= 48 ==> ((w >> (s + 8)) << 8u64) | ((((w >> s) & 0xff) as u8) as u64) == w >> s)
        by (bit_vector);
}

/// Reading back the hex digit of a nibble gives the nibble.
pub proof fn lemma_hex_digit_value(n: u8)
    requires
        n < 16,
    ensures
        hex_value(hex_digit(n)) == n,
        is_hex_digit(hex_digit(n)),
        nibble_of(hex_digit(n)) == n as u64,
{
}

/// The nibble of a word is below 16.
pub proof fn lemma_word_nibble_bound(w: u64, k: int)
    ensures
        word_nibble(w, k) < 16,
{
    let s = ((60 - 4 * k) as u64);
    assert((((w >> s) & 0xf) as u8) < 16) by (bit_vector);
}

proof fn lemma_hex_word_prefix(w: u64, k: int)
    requires
        0 <= k <= 16,
    ensures
        hex_word_value(word_hex(w).take(k)) == (if k == 0 {
            0u64
        } else {
            w >> ((64 - 4 * k) as u64)
        }),
    decreases k,
{
    if k > 0 {
        lemma_hex_word_prefix(w, k - 1);
        let t = word_hex(w).take(k);
        assert(t.drop_last() =~= word_hex(w).take(k - 1));
        lemma_word_nibble_bound(w, k - 1);
        lemma_hex_digit_value(word_nibble(w, k - 1));
        let s: u64 = (64 - 4 * k) as u64;
        assert(t.last() == hex_digit(word_nibble(w, k - 1)));
        assert(((60 - 4 * (k - 1)) as u64) == s);
        if k == 1 {
            assert(((0u64 << 4u64) | ((w >> 60u64) & 0xf)) == w >> 60u64) by (bit_vector);
            assert(((((w >> 60u64) & 0xf) as u8) as u64) == (w >> 60u64) & 0xf) by (bit_vector);
        } else {
            assert(((64 - 4 * (k - 1)) as u64) == s + 4);
            lemma_nibble_step(w, s);
            assert(((((w >> s) & 0xf) as u8) as u64) == (w >> s) & 0xf) by (bit_vector);
        }
    }
}

/// Reading back the sixteen hex digits of a word gives the word.
pub proof fn lemma_word_hex_roundtrip(w: u64)
    ensures
        hex_word_value(word_hex(w)) == w,
        all_hex(word_hex(w)),
{
    lemma_hex_word_prefix(w, 16);
    assert(word_hex(w).take(16) =~= word_hex(w));
    assert(w >> 0u64 == w) by (bit_vector);
    assert forall|i: int| 0 <= i < 16 implies #[trigger] is_hex_digit(word_hex(w)[i]) by {
        lemma_word_nibble_bound(w, i);
        lemma_hex_digit_value(word_nibble(w, i));
    }
}

proof fn lemma_be_word_prefix(w: u64, k: int)
    requires
        0 <= k <= 8,
    ensures
        be_word_value(word_bytes(w).take(k)) == (if k == 0 {
            0u64
        } else {
            w >> ((64 - 8 * k) as u64)
        }),
    decreases k,
{
    if k > 0 {
        lemma_be_word_prefix(w, k - 1);
        let t = word_bytes(w).take(k);
        assert(t.drop_last() =~= word_bytes(w).take(k - 1));
        let s: u64 = (64 - 8 * k) as u64;
        assert(t.last() == word_byte(w, k - 1));
        assert(((56 - 8 * (k - 1)) as u64) == s);
        if k == 1 {
            assert(((0u64 << 8u64) | ((((w >> 56u64) & 0xff) as u8) as u64)) == w >> 56u64)
                by (bit_vector);
        } else {
            assert(((64 - 8 * (k - 1)) as u64) == s + 8);
            lemma_byte_step(w, s);
        }
    }
}

/// Reading back the eight big-endian bytes of a word gives the word.
pub proof fn lemma_word_bytes_roundtrip(w: u64)
    ensures
        be_word_value(word_bytes(w)) == w,
{
    lemma_be_word_prefix(w, 8);
    assert(word_bytes(w).take(8) =~= word_bytes(w));
    assert(w >> 0u64 == w) by (bit_vector);
}

/// The five digits computed from a UUID's halves are its value in base 2^30.
pub proof fn lemma_words_to_digits(hi: u64, lo: u64)
    ensures
        five_digits_value(
            (lo & 0x3FFF_FFFF) as int,
            ((lo >> 30u64) & 0x3FFF_FFFF) as int,
            (((lo >> 60u64) | (hi << 4u64)) & 0x3FFF_FFFF) as int,
            ((hi >> 26u64) & 0x3FFF_FFFF) as int,
            (hi >> 56u64) as int,
        ) == uuid_value(hi, lo),
{
    assert(((lo & 0x3FFF_FFFF) as int) + 0x4000_0000 * ((((lo >> 30u64) & 0x3FFF_FFFF) as int)
        + 0x4000_0000 * (((((lo >> 60u64) | (hi << 4u64)) & 0x3FFF_FFFF) as int) + 0x4000_0000 * (
        (((hi >> 26u64) & 0x3FFF_FFFF) as int) + 0x4000_0000 * ((hi >> 56u64) as int))))
        == (hi as int) * 0x1_0000_0000_0000_0000 + (lo as int)) by (bit_vector);
}

/// Combining five base-2^30 digits below 2^128 into halves keeps the value.
pub proof fn lemma_digits_to_words(d0: u64, d1: u64, d2: u64, d3: u64, d4: u64)
    requires
        d0 < 0x4000_0000,
        d1 < 0x4000_0000,
        d2 < 0x4000_0000,
        d3 < 0x4000_0000,
        d4 <= 0xFF,
    ensures
        uuid_value((d2 >> 4u64) | (d3 << 26u64) | (d4 << 56u64), d0 | (d1 << 30u64) | (d2 << 60u64))
            == five_digits_value(d0 as int, d1 as int, d2 as int, d3 as int, d4 as int),
{
    assert(d0 < 0x4000_0000 && d1 < 0x4000_0000 && d2 < 0x4000_0000 && d3 < 0x4000_0000 && d4
        <= 0xFF ==> (((d2 >> 4u64) | (d3 << 26u64) | (d4 << 56u64)) as int) * 0x1_0000_0000_0000_0000
        + ((d0 | (d1 << 30u64) | (d2 << 60u64)) as int) == (d0 as int) + 0x4000_0000 * ((d1 as int)
        + 0x4000_0000 * ((d2 as int) + 0x4000_0000 * ((d3 as int) + 0x4000_0000 * (d4 as int)))))
        by (bit_vector);
}

/// Six fields within their widths, shifted into place, keep their value.
pub proof fn lemma_fields_to_words(p0: u64, p1: u64, p2: u64, p3: u64, p4: u64, p5: u64)
    requires
        p0 <= 0xFFFF_FFFF,
        p1 <= 0xFFFF,
        p2 <= 0xFFFF,
        p3 <= 0xFF,
        p4 <= 0xFF,
        p5 <= 0xFFFF_FFFF_FFFF,
    ensures
        uuid_value((p0 << 32u64) | (p1 << 16u64) | p2, (p3 << 56u64) | (p4 << 48u64) | p5)
            == fields_value(p0 as int, p1 as int, p2 as int, p3 as int, p4 as int, p5 as int),
{
    assert(p0 <= 0xFFFF_FFFF && p1 <= 0xFFFF && p2 <= 0xFFFF && p3 <= 0xFF && p4 <= 0xFF && p5
        <= 0xFFFF_FFFF_FFFF ==> (((p0 << 32u64) | (p1 << 16u64) | p2) as int)
        * 0x1_0000_0000_0000_0000 + (((p3 << 56u64) | (p4 << 48u64) | p5) as int) == (p0 as int)
        * 0x1_0000_0000_0000_0000_0000_0000 + (p1 as int) * 0x1_0000_0000_0000_0000_0000 + (p2
        as int) * 0x1_0000_0000_0000_0000 + (p3 as int) * 0x100_0000_0000_0000 + (p4 as int)
        * 0x1_0000_0000_0000 + (p5 as int)) by (bit_vector);
}

/// A run of at most five digits has the value of its five zero-padded digits.
pub proof fn lemma_digits_value_padded(d: Seq<u32>)
    requires
        d.len() <= 5,
    ensures
        digits_value(d) == five_digits_value(
            digit_at(d, 0),
            digit_at(d, 1),
            digit_at(d, 2),
            digit_at(d, 3),
            digit_at(d, 4),
        ),
{
    reveal_with_fuel(digits_value, 6);
    let d1 = d.drop_first();
    let d2 = d1.drop_first();
    let d3 = d2.drop_first();
    let d4 = d3.drop_first();
    if d.len() > 0 {
        assert(digit_at(d, 0) == d[0]);
    }
    if d.len() > 1 {
        assert(d1[0] == d[1]);
    }
    if d.len() > 2 {
        assert(d2[0] == d[2]);
    }
    if d.len() > 3 {
        assert(d3[0] == d[3]);
    }
    if d.len() > 4 {
        assert(d4[0] == d[4]);
        assert(d4.drop_first().len() == 0);
    }
}

/// Unfolding one byte of a big-endian word.
pub proof fn lemma_be_word_unfold(s: Seq<u8>, start: int, m: int)
    requires
        0 <= start,
        0 <= m,
        start + m + 1 <= s.len(),
    ensures
        be_word_value(s.subrange(start, start + m + 1)) == (be_word_value(
            s.subrange(start, start + m),
        ) << 8u64) | (s[start + m] as u64),
{
    assert(s.subrange(start, start + m + 1).drop_last() =~= s.subrange(start, start + m));
}

/// The eight big-endian bytes of the word read from eight bytes are those bytes.
pub proof fn lemma_bytes_word_roundtrip(s: Seq<u8>)
    requires
        s.len() == 8,
    ensures
        word_bytes(be_word_value(s)) == s,
{
    assert(s.subrange(0, 8) =~= s);
    assert(s.subrange(0, 0) =~= Seq::<u8>::empty());
    lemma_be_word_unfold(s, 0, 0);
    lemma_be_word_unfold(s, 0, 1);
    lemma_be_word_unfold(s, 0, 2);
    lemma_be_word_unfold(s, 0, 3);
    lemma_be_word_unfold(s, 0, 4);
    lemma_be_word_unfold(s, 0, 5);
    lemma_be_word_unfold(s, 0, 6);
    lemma_be_word_unfold(s, 0, 7);
    let b0 = s[0] as u64;
    let b1 = s[1] as u64;
    let b2 = s[2] as u64;
    let b3 = s[3] as u64;
    let b4 = s[4] as u64;
    let b5 = s[5] as u64;
    let b6 = s[6] as u64;
    let b7 = s[7] as u64;
    let v1 = (0u64 << 8u64) | b0;
    let v2 = (v1 << 8u64) | b1;
    let v3 = (v2 << 8u64) | b2;
    let v4 = (v3 << 8u64) | b3;
    let v5 = (v4 << 8u64) | b4;
    let v6 = (v5 << 8u64) | b5;
    let v7 = (v6 << 8u64) | b6;
    let v = (v7 << 8u64) | b7;
    assert(v == be_word_value(s));
    assert(b0 < 256 && b1 < 256 && b2 < 256 && b3 < 256 && b4 < 256 && b5 < 256 && b6 < 256 && b7
        < 256 && v1 == (0u64 << 8u64) | b0 && v2 == (v1 << 8u64) | b1 && v3 == (v2 << 8u64) | b2
        && v4 == (v3 << 8u64) | b3 && v5 == (v4 << 8u64) | b4 && v6 == (v5 << 8u64) | b5 && v7 == (
        v6 << 8u64) | b6 && v == (v7 << 8u64) | b7 ==> (((v >> 56u64) & 0xff) as u8) == b0 as u8
        && (((v >> 48u64) & 0xff) as u8) == b1 as u8 && (((v >> 40u64) & 0xff) as u8) == b2 as u8
        && (((v >> 32u64) & 0xff) as u8) == b3 as u8 && (((v >> 24u64) & 0xff) as u8) == b4 as u8
        && (((v >> 16u64) & 0xff) as u8) == b5 as u8 && (((v >> 8u64) & 0xff) as u8) == b6 as u8
        && (((v >> 0u64) & 0xff) as u8) == b7 as u8) by (bit_vector);
    assert(word_bytes(v) =~= s);
}

proof fn lemma_shift_in_nibble(v: u64, n: u64, s: u64)
    requires
        n < 16,
        v >> 60u64 == 0,
        s <= 56,
    ensures
        (((v << 4u64) | n) >> (s + 4)) & 0xf == (v >> s) & 0xf,
        ((v << 4u64) | n) & 0xf == n,
        v >> s == 0 ==> ((v << 4u64) | n) >> (s + 4) == 0,
{
    assert(n < 16 && v >> 60u64 == 0 && s <= 56 ==> (((v << 4u64) | n) >> (s + 4)) & 0xf == (v
        >> s) & 0xf && ((v << 4u64) | n) & 0xf == n && (v >> s == 0 ==> ((v << 4u64) | n) >> (s
        + 4) == 0)) by (bit_vector);
}

/// The nibbles of the word read from k hex digits are those digits' values.
proof fn lemma_hex_word_nibbles(t: Seq<u8>, k: int)
    requires
        0 <= k <= 16,
        k <= t.len(),
        forall|i: int| 0 <= i < k ==> #[trigger] is_hex_digit(t[i]),
    ensures
        k < 16 ==> hex_word_value(t.take(k)) >> ((4 * k) as u64) == 0,
        forall|i: int|
            0 <= i < k ==> #[trigger] ((hex_word_value(t.take(k)) >> ((4 * (k - 1 - i)) as u64))
                & 0xf) == hex_value(t[i]) as u64,
    decreases k,
{
    if k == 0 {
        assert(t.take(0) =~= Seq::<u8>::empty());
        assert(0u64 >> 0u64 == 0) by (bit_vector);
    } else {
        lemma_hex_word_nibbles(t, k - 1);
        let v = hex_word_value(t.take(k - 1));
        let n = nibble_of(t[k - 1]);
        assert(t.take(k).drop_last() =~= t.take(k - 1));
        assert(t.take(k).last() == t[k - 1]);
        assert(hex_word_value(t.take(k)) == (v << 4u64) | n);
        assert(is_hex_digit(t[k - 1]));
        assert(n < 16);
        let sk: u64 = (4 * (k - 1)) as u64;
        assert(v >> sk == 0);
        assert(v >> 60u64 == 0) by {
            assert(sk <= 60);
            assert(v >> sk == 0 && sk <= 60 ==> v >> 60u64 == 0) by (bit_vector);
        }
        if k < 16 {
            lemma_shift_in_nibble(v, n, sk);
            assert(((4 * k) as u64) == sk + 4);
        }
        lemma_shift_in_nibble(v, n, 0);
        assert forall|i: int| 0 <= i < k implies #[trigger] ((hex_word_value(t.take(k)) >> ((4 * (k
            - 1 - i)) as u64)) & 0xf) == hex_value(t[i]) as u64 by {
            if i < k - 1 {
                let si: u64 = (4 * (k - 2 - i)) as u64;
                lemma_shift_in_nibble(v, n, si);
                assert(((4 * (k - 1 - i)) as u64) == si + 4);
            } else {
                assert(((4 * (k - 1 - i)) as u64) == 0);
                assert(((v << 4u64) | n) >> 0u64 == (v << 4u64) | n) by (bit_vector);
            }
        }
    }
}

/// Writing out the word read from sixteen hex digits gives those digits in
/// lower case.
pub proof fn lemma_hex_word_reverse(t: Seq<u8>)
    requires
        t.len() == 16,
        all_hex(t),
    ensures
        word_hex(hex_word_value(t)) == lower_digits(t),
{
    lemma_hex_word_nibbles(t, 16);
    assert(t.take(16) =~= t);
    let v = hex_word_value(t);
    assert forall|i: int| 0 <= i < 16 implies #[trigger] word_hex(v)[i] == lower_digits(t)[i] by {
        assert(is_hex_digit(t[i]));
        assert(((4 * (16 - 1 - i)) as u64) == ((60 - 4 * i) as u64));
        assert(((v >> ((60 - 4 * i) as u64)) & 0xf) == hex_value(t[i]) as u64);
    }
    assert(word_hex(v) =~= lower_digits(t));
}

} // verus!
