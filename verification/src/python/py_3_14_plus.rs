//! The digits of the integer form of a UUID, in the base-2^30 layout the
//! interpreter builds its integers from.

use vstd::prelude::*;
use crate::model::{digits_value, five_digits_value, lemma_words_to_digits, uuid_value};

verus! {

/// The five base-2^30 digits, least significant first, of the integer a UUID
/// stands for (Python's `UUID.int`).
pub fn uuid_int_from_parts(hi: u64, lo: u64) -> (digits: [u32; 5])
    ensures
        forall|k: int| 0 <= k < 4 ==> #[trigger] digits@[k] < 0x4000_0000,
        digits@[4] <= 0xFF,
        digits_value(digits@) == uuid_value(hi, lo),
{
    let mask: u64 = 0x3FFF_FFFF;
    let d0 = (lo & mask) as u32;
    let d1 = ((lo >> 30u64) & mask) as u32;
    let d2 = (((lo >> 60u64) | (hi << 4u64)) & mask) as u32;
    let d3 = ((hi >> 26u64) & mask) as u32;
    let d4 = (hi >> 56u64) as u32;
    let digits = [d0, d1, d2, d3, d4];
    proof {
        assert((lo & 0x3FFF_FFFF) < 0x4000_0000 && ((lo >> 30u64) & 0x3FFF_FFFF) < 0x4000_0000
            && (((lo >> 60u64) | (hi << 4u64)) & 0x3FFF_FFFF) < 0x4000_0000 && ((hi >> 26u64)
            & 0x3FFF_FFFF) < 0x4000_0000 && (hi >> 56u64) <= 0xFF) by (bit_vector);
        lemma_words_to_digits(hi, lo);
        reveal_with_fuel(digits_value, 6);
        let s = digits@;
        assert(s.drop_first().drop_first().drop_first().drop_first().drop_first().len() == 0);
        assert(digits_value(s) == five_digits_value(d0 as int, d1 as int, d2 as int, d3 as int, d4 as int));
    }
    digits
}

} // verus!
