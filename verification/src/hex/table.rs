//! The lookup tables of the hexadecimal codec: every 16-bit chunk with its
//! four packed lower-case digits, and every pair of bytes with the byte the
//! two hex digits name.

use vstd::prelude::*;
use crate::model::{hex_digit, hex_value, hex_pair_value, packed_hex_word};
use crate::hex::helpers::hex_word;

verus! {

/// The lower-case hex digit of a nibble.
pub(crate) fn hex_digit_char(n: u8) -> (c: u8)
    requires
        n < 16,
    ensures
        c == hex_digit(n),
{
    if n < 10 {
        n + 48
    } else {
        n + 87
    }
}

/// Value of one ASCII hex digit of either case, or -1.
pub fn hex_nibble(c: u8) -> (r: i8)
    ensures
        r == hex_value(c),
{
    if 48 <= c && c <= 57 {
        (c - 48) as i8
    } else if 97 <= c && c <= 102 {
        (c - 87) as i8
    } else if 65 <= c && c <= 70 {
        (c - 55) as i8
    } else {
        -1
    }
}

/// Table of the packed hex digits of every 16-bit chunk: entry `i` holds the
/// four digits of `i`, most significant in the lowest byte.
pub fn build_hex_words() -> (table: Vec<u32>)
    ensures
        table.len() == 65536,
        forall|i: int| 0 <= i < 65536 ==> #[trigger] table[i] == packed_hex_word(i as u16),
{
    let mut tmp: Vec<u32> = Vec::new();
    let mut i: usize = 0;
    while i < 65536
        invariant
            i <= 65536,
            tmp.len() == i,
            forall|j: int| 0 <= j < i ==> #[trigger] tmp[j] == packed_hex_word(j as u16),
        decreases 65536 - i,
    {
        let w = hex_word(i as u16);
        tmp.push(w as u32);
        i += 1;
    }
    tmp
}

/// Table of hex digit pairs: entry `first | second << 8` holds the byte that
/// the digits `first` (high) and `second` (low) name, or -1 if either byte is
/// not a hex digit.
pub fn build_hex_pairs() -> (table: Vec<i16>)
    ensures
        table.len() == 65536,
        forall|i: int|
            0 <= i < 65536 ==> #[trigger] table[i] == hex_pair_value(
                (i % 256) as u8,
                (i / 256) as u8,
            ),
{
    let mut tmp: Vec<i16> = Vec::new();
    let mut i: usize = 0;
    while i < 65536
        invariant
            i <= 65536,
            tmp.len() == i,
            forall|j: int|
                0 <= j < i ==> #[trigger] tmp[j] == hex_pair_value(
                    (j % 256) as u8,
                    (j / 256) as u8,
                ),
        decreases 65536 - i,
    {
        let hn = hex_nibble((i % 256) as u8);
        let ln = hex_nibble((i / 256) as u8);
        let v: i16 = if hn >= 0 && ln >= 0 {
            (hn as i16) * 16 + ln as i16
        } else {
            -1
        };
        tmp.push(v);
        i += 1;
    }
    tmp
}

} // verus!
