//! The UUID constructor: which one of `hex`, `bytes`, `bytes_le`, `fields` and
//! `int` it reads, the UUID that argument names, and the error it raises.

use vstd::prelude::*;
use crate::model::{
    fields_value, le_reorder, parse_plain_uuid_text, urn_then_brace_or_end, words_of_bytes,
};
use crate::parse::{
    fields_error, parse_uuid, parse_uuid_bytes, parse_uuid_fields, parse_uuid_int, LongExport,
};
use crate::python::args::same_text;
use crate::python::exceptions::UuidError;
use crate::uuid::uuid_obj::UUIDObject;

verus! {

/// Where the UUID constructor takes its value from.
#[derive(Clone, Copy, Debug, PartialEq, Eq, Structural)]
pub enum UuidSource {
    Hex,
    Bytes,
    BytesLe,
    Fields,
    Int,
}

/// Which of `hex`, `bytes`, `bytes_le`, `fields` and `int` hold a value other
/// than None.
#[derive(Clone, Copy, Debug, PartialEq, Eq, Structural)]
pub struct SourcesGiven {
    pub hex: bool,
    pub bytes: bool,
    pub bytes_le: bool,
    pub fields: bool,
    pub int: bool,
}

/// Which sources hold a value once `nargs` positional arguments (at most one:
/// `hex`, given when `hex_given`) and then the keywords are read in order;
/// each keyword comes with whether its value is not None, and takes its
/// parameter over from whatever filled it before.
pub open spec fn sources_given(nargs: nat, hex_given: bool, keywords: Seq<(&str, bool)>) -> Result<
    SourcesGiven,
    UuidError,
>
    decreases keywords.len(),
{
    if keywords.len() == 0 {
        Ok(
            SourcesGiven {
                hex: nargs == 1 && hex_given,
                bytes: false,
                bytes_le: false,
                fields: false,
                int: false,
            },
        )
    } else {
        match sources_given(nargs, hex_given, keywords.drop_last()) {
            Err(e) => Err(e),
            Ok(g) => {
                let k = keywords.len() - 1;
                let name = keywords.last().0@;
                let given = keywords.last().1;
                if name == "bytes"@ {
                    Ok(SourcesGiven { bytes: given, ..g })
                } else if name == "int"@ {
                    Ok(SourcesGiven { int: given, ..g })
                } else if name == "bytes_le"@ {
                    Ok(SourcesGiven { bytes_le: given, ..g })
                } else if name == "fields"@ {
                    Ok(SourcesGiven { fields: given, ..g })
                } else if name == "hex"@ {
                    if nargs == 1 {
                        Err(UuidError::HexByNameAndPosition)
                    } else {
                        Ok(SourcesGiven { hex: given, ..g })
                    }
                } else {
                    Err(UuidError::UuidUnexpectedKeyword(k as usize))
                }
            },
        }
    }
}

/// How many sources hold a value.
pub open spec fn given_count(g: SourcesGiven) -> int {
    (if g.hex { 1int } else { 0 }) + (if g.bytes { 1int } else { 0 }) + (if g.bytes_le {
        1int
    } else {
        0
    }) + (if g.fields { 1int } else { 0 }) + (if g.int { 1int } else { 0 })
}

/// The source the UUID constructor reads for `nargs` positional arguments
/// (the first of them, `hex`, not None when `hex_given`) and the keywords
/// with whether each value is not None: exactly one source must hold a value.
pub open spec fn uuid_source(nargs: nat, hex_given: bool, keywords: Seq<(&str, bool)>) -> Result<
    UuidSource,
    UuidError,
> {
    if nargs > 1 {
        Err(UuidError::UuidTooManyPositional)
    } else {
        match sources_given(nargs, hex_given, keywords) {
            Err(e) => Err(e),
            Ok(g) => if given_count(g) != 1 {
                Err(UuidError::NoSingleSource)
            } else if g.hex {
                Ok(UuidSource::Hex)
            } else if g.bytes {
                Ok(UuidSource::Bytes)
            } else if g.bytes_le {
                Ok(UuidSource::BytesLe)
            } else if g.fields {
                Ok(UuidSource::Fields)
            } else {
                Ok(UuidSource::Int)
            },
        }
    }
}

/// Once reading a prefix of the keywords fails, reading them all fails the
/// same way.
proof fn lemma_sources_error_stays(
    nargs: nat,
    hex_given: bool,
    keywords: Seq<(&str, bool)>,
    i: int,
)
    requires
        0 <= i <= keywords.len(),
        sources_given(nargs, hex_given, keywords.take(i)) is Err,
    ensures
        sources_given(nargs, hex_given, keywords) == sources_given(
            nargs,
            hex_given,
            keywords.take(i),
        ),
    decreases keywords.len() - i,
{
    if i < keywords.len() {
        assert(keywords.take(i + 1).drop_last() =~= keywords.take(i));
        lemma_sources_error_stays(nargs, hex_given, keywords, i + 1);
    } else {
        assert(keywords.take(i) =~= keywords);
    }
}

/// Decides which argument the UUID constructor reads: `nargs` is the number
/// of positional arguments, `hex_given` whether the first of them is not
/// None, and `keywords` the names of the keyword arguments, in order, each
/// with whether its value is not None.
pub fn uuid_type_new(nargs: usize, hex_given: bool, keywords: &[(&str, bool)]) -> (r: Result<
    UuidSource,
    UuidError,
>)
    ensures
        r == uuid_source(nargs as nat, hex_given, keywords@),
{
    if nargs > 1 {
        return Err(UuidError::UuidTooManyPositional);
    }
    proof {
        assert(keywords@.take(0) =~= Seq::<(&str, bool)>::empty());
    }
    let mut g = SourcesGiven {
        hex: nargs == 1 && hex_given,
        bytes: false,
        bytes_le: false,
        fields: false,
        int: false,
    };
    let mut i: usize = 0;
    while i < keywords.len()
        invariant
            i <= keywords@.len(),
            nargs <= 1,
            sources_given(nargs as nat, hex_given, keywords@.take(i as int)) == Ok::<
                SourcesGiven,
                UuidError,
            >(g),
        decreases keywords@.len() - i,
    {
        let (name, given) = keywords[i];
        proof {
            assert(keywords@.take(i + 1).drop_last() =~= keywords@.take(i as int));
            assert(keywords@.take(i + 1).last() == (name, given));
        }
        if same_text(name, "bytes") {
            g = SourcesGiven { bytes: given, ..g };
        } else if same_text(name, "int") {
            g = SourcesGiven { int: given, ..g };
        } else if same_text(name, "bytes_le") {
            g = SourcesGiven { bytes_le: given, ..g };
        } else if same_text(name, "fields") {
            g = SourcesGiven { fields: given, ..g };
        } else if same_text(name, "hex") {
            if nargs == 1 {
                proof {
                    lemma_sources_error_stays(nargs as nat, hex_given, keywords@, i + 1);
                }
                return Err(UuidError::HexByNameAndPosition);
            }
            g = SourcesGiven { hex: given, ..g };
        } else {
            proof {
                lemma_sources_error_stays(nargs as nat, hex_given, keywords@, i + 1);
            }
            return Err(UuidError::UuidUnexpectedKeyword(i));
        }
        i += 1;
    }
    proof {
        assert(keywords@.take(i as int) =~= keywords@);
    }
    let count: usize = (if g.hex { 1usize } else { 0 }) + (if g.bytes { 1usize } else { 0 }) + (
    if g.bytes_le {
        1usize
    } else {
        0
    }) + (if g.fields { 1usize } else { 0 }) + (if g.int { 1usize } else { 0 });
    if count != 1 {
        Err(UuidError::NoSingleSource)
    } else if g.hex {
        Ok(UuidSource::Hex)
    } else if g.bytes {
        Ok(UuidSource::Bytes)
    } else if g.bytes_le {
        Ok(UuidSource::BytesLe)
    } else if g.fields {
        Ok(UuidSource::Fields)
    } else {
        Ok(UuidSource::Int)
    }
}

/// A `bytes` or `bytes_le` argument: its bytes where it is a `bytes` object,
/// else its length.
pub enum BytesArg {
    Data(Vec<u8>),
    Other(usize),
}

/// What the constructor reads of the argument it takes its value from.
pub enum SourceArg {
    /// `hex`: the UTF-8 bytes of the text, or `None` where it is not a `str`.
    Hex(Option<Vec<u8>>),
    /// `bytes`.
    Bytes(BytesArg),
    /// `bytes_le`.
    BytesLe(BytesArg),
    /// `fields`: each item read as a non-negative integer below 2**64 (`None`
    /// where it is not one), or `None` where the argument is not a sequence.
    Fields(Option<Vec<Option<u64>>>),
    /// `int`: what the interpreter exports of it, or `None` where it is not an
    /// integer.
    Int(Option<LongExport>),
}

impl SourceArg {
    /// The source this argument was read for.
    pub open spec fn source(&self) -> UuidSource {
        match self {
            SourceArg::Hex(_) => UuidSource::Hex,
            SourceArg::Bytes(_) => UuidSource::Bytes,
            SourceArg::BytesLe(_) => UuidSource::BytesLe,
            SourceArg::Fields(_) => UuidSource::Fields,
            SourceArg::Int(_) => UuidSource::Int,
        }
    }

    /// Every exported digit lies below 2^30, as the interpreter keeps them,
    /// and a text is not `urn:uuid:` alone or followed by a brace (which the
    /// text reader does not take).
    pub open spec fn wf(&self) -> bool {
        &&& self matches SourceArg::Int(Some(x)) ==> x.wf()
        &&& self matches SourceArg::Hex(Some(t)) ==> !urn_then_brace_or_end(t@)
    }
}

/// The UUID with these halves.
pub open spec fn uuid_of(w: (u64, u64)) -> UUIDObject {
    UUIDObject { hi: w.0, lo: w.1 }
}

/// What a `bytes` (or, with `le`, `bytes_le`) argument gives: 16 bytes name
/// the UUID they spell, in `bytes_le` order with `le`; any other length, or an
/// object that is not `bytes`, is refused.
pub open spec fn bytes_outcome(arg: BytesArg, le: bool) -> Result<UUIDObject, UuidError> {
    let length_error = if le {
        UuidError::BytesLeLength
    } else {
        UuidError::BytesLength
    };
    match arg {
        BytesArg::Data(b) => if b@.len() == 16 {
            Ok(uuid_of(words_of_bytes(if le { le_reorder(b@) } else { b@ })))
        } else {
            Err(length_error)
        },
        BytesArg::Other(n) => if n != 16 {
            Err(length_error)
        } else if le {
            Err(UuidError::BytesLeNotBytes)
        } else {
            Err(UuidError::BytesNotBytes)
        },
    }
}

/// Whether `r` is what the constructor gives for the argument `arg`: the UUID
/// its source's parser reads, or that parser's error. An integer or six fields
/// name the UUID of their value.
pub open spec fn source_outcome(arg: SourceArg, r: Result<UUIDObject, UuidError>) -> bool {
    match arg {
        SourceArg::Hex(None) => r == Err::<UUIDObject, UuidError>(UuidError::HexNotStr),
        SourceArg::Hex(Some(t)) => match parse_plain_uuid_text(t@) {
            Some(w) => r == Ok::<UUIDObject, UuidError>(uuid_of(w)),
            None => r == Err::<UUIDObject, UuidError>(UuidError::BadlyFormedHex),
        },
        SourceArg::Bytes(b) => r == bytes_outcome(b, false),
        SourceArg::BytesLe(b) => r == bytes_outcome(b, true),
        SourceArg::Fields(None) => r == Err::<UUIDObject, UuidError>(UuidError::FieldsNotSequence),
        SourceArg::Fields(Some(p)) => if p@.len() != 6 {
            r == Err::<UUIDObject, UuidError>(UuidError::FieldsNotSixTuple)
        } else {
            match fields_error(p@, 0) {
                Some(e) => r == Err::<UUIDObject, UuidError>(e),
                None => r is Ok && r.unwrap().value() == fields_value(
                    p@[0].unwrap() as int,
                    p@[1].unwrap() as int,
                    p@[2].unwrap() as int,
                    p@[3].unwrap() as int,
                    p@[4].unwrap() as int,
                    p@[5].unwrap() as int,
                ),
            }
        },
        SourceArg::Int(None) => r == Err::<UUIDObject, UuidError>(UuidError::IntNotInt),
        SourceArg::Int(Some(x)) => if x.in_uuid_range() {
            r is Ok && r.unwrap().value() == x.magnitude()
        } else {
            r == Err::<UUIDObject, UuidError>(UuidError::IntOutOfRange)
        },
    }
}

/// The UUID that the argument `arg` names, read by its source's parser.
pub fn uuid_from_source(arg: &SourceArg) -> (r: Result<UUIDObject, UuidError>)
    requires
        arg.wf(),
    ensures
        source_outcome(*arg, r),
{
    let (mut hi, mut lo) = (0u64, 0u64);
    let read = match arg {
        SourceArg::Hex(None) => Err(UuidError::HexNotStr),
        SourceArg::Hex(Some(t)) => parse_uuid(t.as_slice(), &mut hi, &mut lo),
        SourceArg::Bytes(BytesArg::Data(b)) => parse_uuid_bytes(b.as_slice(), false, &mut hi, &mut lo),
        SourceArg::Bytes(BytesArg::Other(n)) => if *n != 16 {
            Err(UuidError::BytesLength)
        } else {
            Err(UuidError::BytesNotBytes)
        },
        SourceArg::BytesLe(BytesArg::Data(b)) => parse_uuid_bytes(b.as_slice(), true, &mut hi, &mut lo),
        SourceArg::BytesLe(BytesArg::Other(n)) => if *n != 16 {
            Err(UuidError::BytesLeLength)
        } else {
            Err(UuidError::BytesLeNotBytes)
        },
        SourceArg::Fields(None) => Err(UuidError::FieldsNotSequence),
        SourceArg::Fields(Some(p)) => parse_uuid_fields(p.as_slice(), &mut hi, &mut lo),
        SourceArg::Int(None) => Err(UuidError::IntNotInt),
        SourceArg::Int(Some(x)) => parse_uuid_int(x, &mut hi, &mut lo),
    };
    match read {
        Ok(()) => Ok(UUIDObject { hi, lo }),
        Err(e) => Err(e),
    }
}

/// Whether `r` is what the constructor gives: the error of its arguments,
/// else the UUID the chosen argument `chosen` names. `chosen` read for
/// another source than the arguments choose is refused as
/// [`UuidError::NoSingleSource`].
pub open spec fn constructor_outcome(
    nargs: nat,
    hex_given: bool,
    keywords: Seq<(&str, bool)>,
    chosen: SourceArg,
    r: Result<UUIDObject, UuidError>,
) -> bool {
    match uuid_source(nargs, hex_given, keywords) {
        Err(e) => r == Err::<UUIDObject, UuidError>(e),
        Ok(s) => if s == chosen.source() {
            source_outcome(chosen, r)
        } else {
            r == Err::<UUIDObject, UuidError>(UuidError::NoSingleSource)
        },
    }
}

/// `UUID(hex=None, *, bytes=None, bytes_le=None, fields=None, int=None)`:
/// decides which argument the constructor reads (as [`uuid_type_new`]) and
/// reads the UUID from `chosen`, the plain values of that argument.
pub fn uuid_new_from_args(
    nargs: usize,
    hex_given: bool,
    keywords: &[(&str, bool)],
    chosen: &SourceArg,
) -> (r: Result<UUIDObject, UuidError>)
    requires
        chosen.wf(),
    ensures
        constructor_outcome(nargs as nat, hex_given, keywords@, *chosen, r),
{
    let source = match uuid_type_new(nargs, hex_given, keywords) {
        Ok(s) => s,
        Err(e) => {
            return Err(e);
        },
    };
    let matches = match (source, chosen) {
        (UuidSource::Hex, SourceArg::Hex(_)) => true,
        (UuidSource::Bytes, SourceArg::Bytes(_)) => true,
        (UuidSource::BytesLe, SourceArg::BytesLe(_)) => true,
        (UuidSource::Fields, SourceArg::Fields(_)) => true,
        (UuidSource::Int, SourceArg::Int(_)) => true,
        _ => false,
    };
    if !matches {
        return Err(UuidError::NoSingleSource);
    }
    uuid_from_source(chosen)
}

} // verus!
