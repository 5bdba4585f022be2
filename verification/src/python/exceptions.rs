//! The errors the library reports, each with the Python exception class it
//! is raised as and its message.

use vstd::prelude::*;

verus! {

/// The Python exception class an error is raised as.
#[derive(Clone, Copy, Debug, PartialEq, Eq, Structural)]
pub enum ExceptionKind {
    OSError,
    TypeError,
    ValueError,
    /// Raised as no exception: the call panics.
    Panic,
}

/// Every error the library can report.
#[derive(Clone, Copy, Debug, PartialEq, Eq, Structural)]
pub enum UuidError {
    /// A text that does not name a UUID.
    BadlyFormedHex,
    /// `bytes` that are not 16 bytes long.
    BytesLength,
    /// `bytes_le` that are not 16 bytes long.
    BytesLeLength,
    /// An integer outside `0..2**128`.
    IntOutOfRange,
    /// `fields` that are not six values.
    FieldsNotSixTuple,
    /// `fields` holding something that is not a non-negative integer.
    FieldsNotIntegers,
    /// A field beyond its width.
    FieldOutOfRange,
    /// The operating system gave no random bytes.
    RandomBytesUnavailable,
    /// A timestamp beyond 48 bits of milliseconds.
    TimestampTooLarge,
    /// Nanoseconds of a second outside `0..1_000_000_000`.
    NanosOutOfRange,
    /// A `hex` argument that is not a `str`.
    HexNotStr,
    /// A `bytes` argument of the right length that is not a `bytes` object.
    BytesNotBytes,
    /// A `bytes_le` argument of the right length that is not a `bytes` object.
    BytesLeNotBytes,
    /// An `int` argument that is not an integer.
    IntNotInt,
    /// A `fields` argument that is not a sequence.
    FieldsNotSequence,
    /// More than one positional argument to the UUID constructor.
    UuidTooManyPositional,
    /// `hex` given both by position and by name.
    HexByNameAndPosition,
    /// A keyword the UUID constructor does not take: the index of the keyword
    /// among those given.
    UuidUnexpectedKeyword(usize),
    /// None, or more than one, of `hex`, `bytes`, `bytes_le`, `fields` and `int`.
    NoSingleSource,
    /// More than three positional arguments to `uuid7()`.
    Uuid7TooManyPositional,
    /// A keyword `uuid7()` does not take: the index of the keyword among those
    /// given.
    Uuid7UnexpectedKeyword(usize),
    /// A `mode` that is not a `str`.
    ModeNotStr,
    /// A `mode` text other than `'fast'` and `'secure'`.
    ModeUnknown,
    /// A `timestamp` that is not a non-negative integer below 2**64.
    TimestampNotInt,
    /// A `nanos` that is not a non-negative integer below 2**64.
    NanosNotInt,
    /// The system clock reads before the Unix epoch; the call panics on it.
    ClockBeforeEpoch,
}

impl UuidError {
    pub open spec fn spec_kind(self) -> ExceptionKind {
        match self {
            UuidError::RandomBytesUnavailable => ExceptionKind::OSError,
            UuidError::ClockBeforeEpoch => ExceptionKind::Panic,
            UuidError::BadlyFormedHex | UuidError::BytesLength | UuidError::BytesLeLength
            | UuidError::IntOutOfRange | UuidError::FieldsNotSixTuple
            | UuidError::FieldOutOfRange | UuidError::TimestampTooLarge
            | UuidError::NanosOutOfRange | UuidError::ModeUnknown => ExceptionKind::ValueError,
            _ => ExceptionKind::TypeError,
        }
    }

    /// The message; for an unexpected keyword, the text that the keyword's
    /// name, in single quotes, follows.
    pub open spec fn spec_message(self) -> Seq<char> {
        match self {
            UuidError::BadlyFormedHex => "badly formed hexadecimal UUID string"@,
            UuidError::BytesLength => "bytes is not a 16-char string"@,
            UuidError::BytesLeLength => "bytes_le is not a 16-char string"@,
            UuidError::IntOutOfRange => "int is out of range (need a 128-bit value)"@,
            UuidError::FieldsNotSixTuple => "fields is not a 6-tuple"@,
            UuidError::FieldsNotIntegers => "fields must contain only integers"@,
            UuidError::FieldOutOfRange => "field value out of range"@,
            UuidError::RandomBytesUnavailable => "unable to generate random bytes"@,
            UuidError::TimestampTooLarge => "timestamp is too large"@,
            UuidError::NanosOutOfRange => "nanos must be in range 0..999999999"@,
            UuidError::HexNotStr => "UUID() argument must be a str"@,
            UuidError::BytesNotBytes => "bytes is not a 16-char bytes object"@,
            UuidError::BytesLeNotBytes => "bytes_le is not a 16-char bytes object"@,
            UuidError::IntNotInt => "int must be a 128-bit integer"@,
            UuidError::FieldsNotSequence => "fields must be a 6-tuple"@,
            UuidError::UuidTooManyPositional => "UUID() takes at most 1 positional argument"@,
            UuidError::HexByNameAndPosition =>
                "argument for UUID() given by name ('hex') and position"@,
            UuidError::UuidUnexpectedKeyword(_) =>
                "UUID.__init__() got an unexpected keyword argument"@,
            UuidError::NoSingleSource =>
                "one of the hex, bytes, bytes_le, fields, or int arguments must be given"@,
            UuidError::Uuid7TooManyPositional => "uuid7() takes at most 3 positional arguments"@,
            UuidError::Uuid7UnexpectedKeyword(_) => "uuid7() got an unexpected keyword argument"@,
            UuidError::ModeNotStr => "mode must be 'fast', 'secure', or None"@,
            UuidError::ModeUnknown => "mode must be 'fast' or 'secure'"@,
            UuidError::TimestampNotInt => "timestamp must be a non-negative int or None"@,
            UuidError::NanosNotInt => "nanos must be a non-negative int or None"@,
            UuidError::ClockBeforeEpoch => "system clock is before UNIX_EPOCH"@,
        }
    }

    /// The Python exception class this error is raised as.
    pub fn kind(&self) -> (k: ExceptionKind)
        ensures
            k == self.spec_kind(),
    {
        match self {
            UuidError::RandomBytesUnavailable => ExceptionKind::OSError,
            UuidError::ClockBeforeEpoch => ExceptionKind::Panic,
            UuidError::BadlyFormedHex | UuidError::BytesLength | UuidError::BytesLeLength
            | UuidError::IntOutOfRange | UuidError::FieldsNotSixTuple
            | UuidError::FieldOutOfRange | UuidError::TimestampTooLarge
            | UuidError::NanosOutOfRange | UuidError::ModeUnknown => ExceptionKind::ValueError,
            _ => ExceptionKind::TypeError,
        }
    }

    /// The message the exception carries; for an unexpected keyword, the text
    /// that the keyword's name, in single quotes, follows.
    pub fn message(&self) -> (m: &'static str)
        ensures
            m@ == self.spec_message(),
    {
        match self {
            UuidError::BadlyFormedHex => "badly formed hexadecimal UUID string",
            UuidError::BytesLength => "bytes is not a 16-char string",
            UuidError::BytesLeLength => "bytes_le is not a 16-char string",
            UuidError::IntOutOfRange => "int is out of range (need a 128-bit value)",
            UuidError::FieldsNotSixTuple => "fields is not a 6-tuple",
            UuidError::FieldsNotIntegers => "fields must contain only integers",
            UuidError::FieldOutOfRange => "field value out of range",
            UuidError::RandomBytesUnavailable => "unable to generate random bytes",
            UuidError::TimestampTooLarge => "timestamp is too large",
            UuidError::NanosOutOfRange => "nanos must be in range 0..999999999",
            UuidError::HexNotStr => "UUID() argument must be a str",
            UuidError::BytesNotBytes => "bytes is not a 16-char bytes object",
            UuidError::BytesLeNotBytes => "bytes_le is not a 16-char bytes object",
            UuidError::IntNotInt => "int must be a 128-bit integer",
            UuidError::FieldsNotSequence => "fields must be a 6-tuple",
            UuidError::UuidTooManyPositional => "UUID() takes at most 1 positional argument",
            UuidError::HexByNameAndPosition =>
                "argument for UUID() given by name ('hex') and position",
            UuidError::UuidUnexpectedKeyword(_) =>
                "UUID.__init__() got an unexpected keyword argument",
            UuidError::NoSingleSource =>
                "one of the hex, bytes, bytes_le, fields, or int arguments must be given",
            UuidError::Uuid7TooManyPositional => "uuid7() takes at most 3 positional arguments",
            UuidError::Uuid7UnexpectedKeyword(_) => "uuid7() got an unexpected keyword argument",
            UuidError::ModeNotStr => "mode must be 'fast', 'secure', or None",
            UuidError::ModeUnknown => "mode must be 'fast' or 'secure'",
            UuidError::TimestampNotInt => "timestamp must be a non-negative int or None",
            UuidError::NanosNotInt => "nanos must be a non-negative int or None",
            UuidError::ClockBeforeEpoch => "system clock is before UNIX_EPOCH",
        }
    }
}

} // verus!
