//! The error taxonomy: every failure names its kind and, where one is known,
//! the byte offset at which decoding stopped.

use vstd::prelude::*;

verus! {

/// The kind of failure met while decoding PHP serialized data.
#[derive(Debug)]
#[non_exhaustive]
#[allow(inconsistent_fields)]
pub enum ErrorKind {
    /// The input ended where more bytes were required.
    Eof,
    /// A fixed byte of the grammar was required and another was found.
    MismatchByte { expected: u8, found: u8, position: usize },
    /// A byte that no rule of the grammar admits at this place.
    UnexpectedByte { found: u8, position: usize },
    /// Text was requested and the bytes are not valid UTF-8. `position`
    /// counts from the start of those bytes, not of the input: it is the
    /// length of their longest prefix that is valid.
    Utf8 { position: usize },
    /// The tokens do not have the shape that was asked for.
    Deserialize { message: String, position: Option<usize> },
    /// A number or a length with no digits.
    Empty { position: usize },
    /// A string payload that is not framed by double quotes.
    MissingQuotes { position: usize },
    /// A declared string length that exceeds the bytes that are left.
    StringTooLong { position: usize },
    /// A byte that cannot be part of the number being read.
    InvalidNumber { position: usize },
    /// A number with too many digits or outside the range of its type.
    Overflow { position: usize },
}

impl ErrorKind {
    /// The byte offset that the kind carries, if it carries one.
    pub open spec fn offset(self) -> Option<usize> {
        match self {
            ErrorKind::Eof => None,
            ErrorKind::MismatchByte { position, .. } => Some(position),
            ErrorKind::UnexpectedByte { position, .. } => Some(position),
            ErrorKind::Utf8 { position } => Some(position),
            ErrorKind::Deserialize { position, .. } => position,
            ErrorKind::Empty { position } => Some(position),
            ErrorKind::MissingQuotes { position } => Some(position),
            ErrorKind::StringTooLong { position } => Some(position),
            ErrorKind::InvalidNumber { position } => Some(position),
            ErrorKind::Overflow { position } => Some(position),
        }
    }

    /// Whether this is a shape mismatch with the given message and offset.
    pub open spec fn is_deserialize(self, message: Seq<char>, position: Option<usize>) -> bool {
        self matches ErrorKind::Deserialize { message: m, position: p } && m@ == message && p
            == position
    }
}

/// A decoding error. Its view is its kind.
#[derive(Debug)]
pub struct Error {
    kind: ErrorKind,
}

impl View for Error {
    type V = ErrorKind;

    closed spec fn view(&self) -> ErrorKind {
        self.kind
    }
}

impl Error {
    /// The error of the given kind.
    pub closed spec fn of(kind: ErrorKind) -> Error {
        Error { kind }
    }

    /// `of` and the view are inverse to each other.
    pub broadcast proof fn lemma_of_view(kind: ErrorKind)
        ensures
            (#[trigger] Error::of(kind))@ == kind,
    {
    }

    /// The kind of the error.
    #[must_use]
    pub fn kind(&self) -> (kind: &ErrorKind)
        ensures
            *kind == self@,
    {
        &self.kind
    }

    /// The byte offset of the error, for the kinds that carry one.
    #[must_use]
    pub fn position(&self) -> (position: Option<usize>)
        ensures
            position == self@.offset(),
    {
        match &self.kind {
            ErrorKind::MismatchByte { position, .. }
            | ErrorKind::UnexpectedByte { position, .. }
            | ErrorKind::Utf8 { position }
            | ErrorKind::Empty { position }
            | ErrorKind::MissingQuotes { position }
            | ErrorKind::StringTooLong { position }
            | ErrorKind::InvalidNumber { position }
            | ErrorKind::Overflow { position } => Some(*position),
            ErrorKind::Deserialize { position, .. } => *position,
            ErrorKind::Eof => None,
        }
    }
}

impl From<ErrorKind> for Error {
    fn from(kind: ErrorKind) -> (error: Error) {
        Error { kind }
    }
}

impl vstd::std_specs::convert::FromSpecImpl<ErrorKind> for Error {
    open spec fn obeys_from_spec() -> bool {
        true
    }

    open spec fn from_spec(kind: ErrorKind) -> Error {
        Error::of(kind)
    }
}

} // verus!
