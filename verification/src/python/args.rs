//! What the library reads of the arguments of a Python call: the plain values
//! an argument holds, and the comparison of a keyword's name with the names a
//! function takes.

use vstd::prelude::*;
use vstd::string::*;

verus! {

/// What the library reads of one argument of a Python call.
pub struct ArgValue {
    /// The argument is `None`.
    pub is_none: bool,
    /// The argument's text, where it is a `str`.
    pub text: Option<String>,
    /// The argument's value, where it is a non-negative integer below 2**64.
    pub uint: Option<u64>,
}

/// The argument a reference points to, if any.
pub open spec fn arg_value(value: Option<&ArgValue>) -> Option<ArgValue> {
    match value {
        Some(v) => Some(*v),
        None => None,
    }
}

/// Whether two texts are the same, character for character.
pub fn same_text(a: &str, b: &str) -> (r: bool)
    ensures
        r == (a@ == b@),
{
    let n = a.unicode_len();
    if n != b.unicode_len() {
        return false;
    }
    let mut i: usize = 0;
    while i < n
        invariant
            n == a@.len(),
            n == b@.len(),
            i <= n,
            forall|k: int| 0 <= k < i ==> a@[k] == b@[k],
        decreases n - i,
    {
        if a.get_char(i) != b.get_char(i) {
            return false;
        }
        i += 1;
    }
    proof {
        assert(a@ =~= b@);
    }
    true
}

} // verus!
