use vstd::prelude::*;

verus! {

/// The three families of decode failure.
#[derive(Debug, Clone, Copy, PartialEq, Eq, Structural)]
pub enum ErrorCategory {
    /// The source ended before a field or a data block was complete.
    Io,
    /// A name or a character attribute is not valid UTF-8.
    Encoding,
    /// The bytes do not follow the format's grammar.
    Format,
}

/// What went wrong while decoding.
#[derive(Debug, Clone, Copy, PartialEq, Eq, Structural)]
pub enum ErrorKind {
    /// A read or a data block reaches past the end of the source.
    UnexpectedEof,
    /// The byte source itself could not be read.
    ReadFailed,
    /// A string field is not valid UTF-8.
    InvalidUtf8,
    /// The first three bytes are not the format signature.
    BadMagic,
    /// The version byte is neither 1 nor 2.
    UnsupportedVersion(u8),
    /// A type tag outside byte, char, short, int, float and double.
    UnknownType(u32),
    /// A second dimension of length zero (only one may be unlimited).
    SecondUnlimited,
    /// A variable names a dimension index past the end of the table.
    DimensionOutOfRange(u32),
    /// A format failure described by its reason alone.
    Invalid,
}

impl ErrorKind {
    pub open spec fn spec_category(self) -> ErrorCategory {
        match self {
            ErrorKind::UnexpectedEof | ErrorKind::ReadFailed => ErrorCategory::Io,
            ErrorKind::InvalidUtf8 => ErrorCategory::Encoding,
            _ => ErrorCategory::Format,
        }
    }

    /// The family this failure belongs to.
    pub fn category(&self) -> (c: ErrorCategory)
        ensures
            c == self.spec_category(),
    {
        match self {
            ErrorKind::UnexpectedEof | ErrorKind::ReadFailed => ErrorCategory::Io,
            ErrorKind::InvalidUtf8 => ErrorCategory::Encoding,
            _ => ErrorCategory::Format,
        }
    }
}

/// The standard wording for each kind of failure.
pub open spec fn reason_text(kind: ErrorKind) -> Seq<char> {
    match kind {
        ErrorKind::UnexpectedEof => "unexpected end of data"@,
        ErrorKind::ReadFailed => "the source could not be read"@,
        ErrorKind::InvalidUtf8 => "invalid UTF-8 in a string field"@,
        ErrorKind::BadMagic => "incorrect magic number"@,
        ErrorKind::UnsupportedVersion(_) => "unsupported version"@,
        ErrorKind::UnknownType(_) => "unknown type"@,
        ErrorKind::SecondUnlimited => "more than one unlimited dimension"@,
        ErrorKind::DimensionOutOfRange(_) => "dimension reference out of range"@,
        ErrorKind::Invalid => "invalid file"@,
    }
}

/// A failed decode: its kind and a human-readable reason.
#[derive(Debug)]
pub struct ParseError {
    pub kind: ErrorKind,
    pub reason: String,
}

impl ParseError {
    /// A format failure with the given reason.
    pub fn new(reason: &str) -> (r: ParseError)
        ensures
            r.kind == ErrorKind::Invalid,
            r.reason@ == reason@,
    {
        ParseError { kind: ErrorKind::Invalid, reason: reason.to_owned() }
    }

    /// The error for `kind`, with the standard wording for it.
    pub fn from_kind(kind: ErrorKind) -> (r: ParseError)
        ensures
            r.kind == kind,
            r.reason@ == reason_text(kind),
    {
        let text = match kind {
            ErrorKind::UnexpectedEof => "unexpected end of data",
            ErrorKind::ReadFailed => "the source could not be read",
            ErrorKind::InvalidUtf8 => "invalid UTF-8 in a string field",
            ErrorKind::BadMagic => "incorrect magic number",
            ErrorKind::UnsupportedVersion(_) => "unsupported version",
            ErrorKind::UnknownType(_) => "unknown type",
            ErrorKind::SecondUnlimited => "more than one unlimited dimension",
            ErrorKind::DimensionOutOfRange(_) => "dimension reference out of range",
            ErrorKind::Invalid => "invalid file",
        };
        ParseError { kind, reason: text.to_owned() }
    }

    /// The human-readable reason.
    pub fn reason(&self) -> (r: &str)
        ensures
            r@ == self.reason@,
    {
        self.reason.as_str()
    }
}

} // verus!
