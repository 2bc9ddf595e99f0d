//! The decoding bridge: for each shape that a consumer may ask for, which
//! tokens are taken and what the consumer is handed in return.
//!
//! The bridge has no state besides its tokenizer. A sequence or a map is
//! walked by asking, before each item, whether one follows: the `}` that
//! closes the body ends the walk, never the count that its header declares.

use crate::bstr::{demangle, invalid_at, PhpBstr};
use crate::errors::{Error, ErrorKind};
use crate::parser::{ParserView, PhpParser};
use crate::token::{PhpToken, PhpTokenKind, TokenView};
use vstd::prelude::*;
use vstd::utf8::{decode_utf8, valid_utf8};

verus! {

broadcast use Error::lemma_of_view;

/// What the consumer is handed for the shape it asked for.
#[derive(Debug, PartialEq)]
pub enum PhpVisit<'de> {
    /// The unit value, for a null.
    Unit,
    /// A boolean.
    Bool(bool),
    /// An integer, or the number of a reference.
    Integer(i64),
    /// A float, as its numeral.
    Float(PhpBstr<'de>),
    /// The bytes of a string, as they are.
    Bytes(&'de [u8]),
    /// The text of a string.
    Text(&'de str),
    /// The clean name of a property.
    Name(&'de str),
    /// A sequence follows: the body of an array, item by item.
    Sequence,
    /// A map follows: the body of an array or object, key by key.
    Entries,
    /// No value: a null, where an optional value was asked for.
    Absent,
    /// A value follows, where an optional value was asked for.
    Present,
    /// An enum follows: its variant's name, then what the variant holds.
    Variant,
    /// The value that a wrapper of one field wraps follows.
    Wrapped,
}

/// A `PhpVisit` as a value.
pub enum VisitView {
    Unit,
    Bool(bool),
    Integer(i64),
    Float(Seq<u8>),
    Bytes(Seq<u8>),
    Text(Seq<char>),
    Name(Seq<char>),
    Sequence,
    Entries,
    Absent,
    Present,
    Variant,
    Wrapped,
}

impl<'de> View for PhpVisit<'de> {
    type V = VisitView;

    open spec fn view(&self) -> VisitView {
        match *self {
            PhpVisit::Unit => VisitView::Unit,
            PhpVisit::Bool(b) => VisitView::Bool(b),
            PhpVisit::Integer(i) => VisitView::Integer(i),
            PhpVisit::Float(numeral) => VisitView::Float(numeral@),
            PhpVisit::Bytes(bytes) => VisitView::Bytes(bytes@),
            PhpVisit::Text(text) => VisitView::Text(text@),
            PhpVisit::Name(name) => VisitView::Name(name@),
            PhpVisit::Sequence => VisitView::Sequence,
            PhpVisit::Entries => VisitView::Entries,
            PhpVisit::Absent => VisitView::Absent,
            PhpVisit::Present => VisitView::Present,
            PhpVisit::Variant => VisitView::Variant,
            PhpVisit::Wrapped => VisitView::Wrapped,
        }
    }
}

/// What a token gives by its own kind, whatever shape was asked for. The
/// token that closes a body gives nothing: it is no value.
pub open spec fn visit_of(token: TokenView) -> Option<VisitView> {
    match token {
        TokenView::Null => Some(VisitView::Unit),
        TokenView::Boolean(b) => Some(VisitView::Bool(b)),
        TokenView::Integer(i) => Some(VisitView::Integer(i)),
        TokenView::Float(numeral) => Some(VisitView::Float(numeral)),
        TokenView::String(bytes) => Some(VisitView::Bytes(bytes)),
        TokenView::Array { .. } => Some(VisitView::Sequence),
        TokenView::Object { .. } => Some(VisitView::Entries),
        TokenView::Reference(r) => Some(VisitView::Integer(r)),
        TokenView::End => None,
    }
}

/// `r` hands over `visit`.
pub open spec fn hands(r: Result<PhpVisit, Error>, visit: VisitView) -> bool {
    r matches Ok(v) && v@ == visit
}

/// `r` fails with the error `kind`.
pub open spec fn fails<T>(r: Result<T, Error>, kind: ErrorKind) -> bool {
    r matches Err(e) && e@ == kind
}

/// `r` fails with a shape mismatch that says `message` and names `position`.
pub open spec fn mismatch<T>(r: Result<T, Error>, message: Seq<char>, position: int) -> bool {
    r matches Err(e) && e@.is_deserialize(message, Some(position as usize))
}

/// `r` is what `token`, taken with the cursor left at `position`, gives by
/// its own kind.
pub open spec fn dispatch(token: TokenView, position: int, r: Result<PhpVisit, Error>) -> bool {
    match visit_of(token) {
        Some(visit) => hands(r, visit),
        None => mismatch(r, "Unexpected token"@, position),
    }
}

/// `r` is the text of `bytes`, or the error that says where they stop being
/// UTF-8.
pub open spec fn text_of(bytes: Seq<u8>, r: Result<PhpVisit, Error>, name: bool) -> bool {
    if valid_utf8(bytes) {
        hands(
            r,
            if name {
                VisitView::Name(decode_utf8(bytes))
            } else {
                VisitView::Text(decode_utf8(bytes))
            },
        )
    } else {
        r matches Err(e) && invalid_at(e@, bytes)
    }
}

/// The kinds of token with which an enum may start.
pub open spec fn starts_enum(kind: PhpTokenKind) -> bool {
    kind == PhpTokenKind::String || kind == PhpTokenKind::Integer || kind == PhpTokenKind::Boolean
        || kind == PhpTokenKind::Array
}

/// The shape that a consumer asks for.
#[derive(Debug, PartialEq, Clone, Copy, Eq, Hash)]
pub enum PhpShape {
    Any,
    Bool,
    I8,
    I16,
    I32,
    I64,
    U8,
    U16,
    U32,
    U64,
    F32,
    F64,
    Char,
    Str,
    Text,
    Bytes,
    ByteBuf,
    Optional,
    Unit,
    UnitStruct,
    NewtypeStruct,
    Sequence,
    Tuple(usize),
    TupleStruct(usize),
    Entries,
    Struct,
    Enum,
    Identifier,
    IgnoredAny,
}

/// Decoding by the kind of the token that is found: the next token is
/// taken, and gives what it gives by its own kind.
pub open spec fn decoded_any(
    before: ParserView,
    after: ParserView,
    r: Result<PhpVisit, Error>,
) -> bool {
    &&& after == before.at(before.next().position)
    &&& match before.next().result {
        Ok(Some(token)) => dispatch(token, before.next().position, r),
        Ok(None) => fails(r, ErrorKind::Eof),
        Err(kind) => fails(r, kind),
    }
}

/// Decoding text: the next token is taken; a string is handed over as
/// text, and has to be valid UTF-8; any other token gives what it gives
/// by its own kind.
pub open spec fn decoded_text(
    before: ParserView,
    after: ParserView,
    r: Result<PhpVisit, Error>,
) -> bool {
    &&& after == before.at(before.next().position)
    &&& match before.next().result {
        Ok(Some(TokenView::String(bytes))) => text_of(bytes, r, false),
        Ok(Some(token)) => dispatch(token, before.next().position, r),
        Ok(None) => fails(r, ErrorKind::Eof),
        Err(kind) => fails(r, kind),
    }
}

/// Decoding an optional value: a null is taken and stands for no value;
/// before any other token the cursor stays, with the token looked at.
pub open spec fn decoded_option(
    before: ParserView,
    after: ParserView,
    r: Result<PhpVisit, Error>,
) -> bool {
    match before.peek() {
        Ok(Some(PhpTokenKind::Null)) => {
            &&& after == before.at(before.next().position)
            &&& match before.next().result {
                Ok(_) => hands(r, VisitView::Absent),
                Err(kind) => fails(r, kind),
            }
        },
        Ok(Some(_)) => after == before.peeked() && hands(r, VisitView::Present),
        Ok(None) => after == before.peeked() && fails(r, ErrorKind::Eof),
        Err(kind) => after == before.peeked() && fails(r, kind),
    }
}

/// Decoding a tuple of `len` items: the header of an array is taken, and
/// has to declare exactly `len` items.
pub open spec fn decoded_tuple(
    before: ParserView,
    after: ParserView,
    r: Result<PhpVisit, Error>,
    len: usize,
) -> bool {
    &&& after == before.at(before.next().position)
    &&& match before.next().result {
        Ok(Some(TokenView::Array { elements })) => if elements == len {
            hands(r, VisitView::Sequence)
        } else {
            mismatch(r, "Array length mismatch"@, before.next().position)
        },
        Ok(_) => mismatch(r, "Expected array"@, before.next().position),
        Err(kind) => fails(r, kind),
    }
}

/// Decoding a map: the header of an array or of an object is taken.
pub open spec fn decoded_map(
    before: ParserView,
    after: ParserView,
    r: Result<PhpVisit, Error>,
) -> bool {
    &&& after == before.at(before.next().position)
    &&& match before.next().result {
        Ok(Some(TokenView::Array { .. })) => hands(r, VisitView::Entries),
        Ok(Some(TokenView::Object { .. })) => hands(r, VisitView::Entries),
        Ok(Some(_)) => mismatch(r, "Expected array or object"@, before.next().position),
        Ok(None) => fails(r, ErrorKind::Eof),
        Err(kind) => fails(r, kind),
    }
}

/// Decoding an enum: the next token is looked at, and has to be one with
/// which an enum may start.
pub open spec fn decoded_enum(
    before: ParserView,
    after: ParserView,
    r: Result<PhpVisit, Error>,
) -> bool {
    &&& after == before.peeked()
    &&& match before.peek() {
        Ok(Some(kind)) => if starts_enum(kind) {
            hands(r, VisitView::Variant)
        } else {
            mismatch(r, "Expected token for enum variant"@, before.position)
        },
        Ok(None) => mismatch(r, "Expected token for enum variant"@, before.position),
        Err(kind) => fails(r, kind),
    }
}

/// Decoding the name of a variant: the next token is taken, and has to be
/// a string, which is handed over as text.
pub open spec fn decoded_variant(
    before: ParserView,
    after: ParserView,
    r: Result<PhpVisit, Error>,
) -> bool {
    &&& after == before.at(before.next().position)
    &&& match before.next().result {
        Ok(Some(TokenView::String(bytes))) => text_of(bytes, r, false),
        Ok(Some(_)) => mismatch(r, "Expected string for enum variant"@, before.next().position),
        Ok(None) => fails(r, ErrorKind::Eof),
        Err(kind) => fails(r, kind),
    }
}

/// Decoding the name of a field: the next token is taken; a string is
/// taken for the serialized name of a property, and its clean name handed
/// over as text; any other token gives what it gives by its own kind.
pub open spec fn decoded_identifier(
    before: ParserView,
    after: ParserView,
    r: Result<PhpVisit, Error>,
) -> bool {
    &&& after == before.at(before.next().position)
    &&& match before.next().result {
        Ok(Some(TokenView::String(bytes))) => text_of(demangle(bytes).0, r, true),
        Ok(Some(token)) => dispatch(token, before.next().position, r),
        Ok(None) => fails(r, ErrorKind::Eof),
        Err(kind) => fails(r, kind),
    }
}

/// Asking whether another item follows: the `}` that closes the body is
/// taken, and ends the walk; before any other token the cursor stays.
pub open spec fn asked_next(before: ParserView, after: ParserView, r: Result<bool, Error>) -> bool {
    match before.peek() {
        Ok(Some(PhpTokenKind::End)) => after == before.peeked().consumed() && r == Ok::<
            bool,
            Error,
        >(false),
        Ok(Some(_)) => after == before.peeked() && r == Ok::<bool, Error>(true),
        Ok(None) => after == before.peeked() && fails(r, ErrorKind::Eof),
        Err(kind) => after == before.peeked() && fails(r, kind),
    }
}

/// Decoding the shape `shape`: which of the ways above serves it. A wrapper
/// of one field takes no token of its own; numbers, bytes, units and
/// sequences are decoded by the kind of the token that is found.
pub open spec fn decoded(
    shape: PhpShape,
    before: ParserView,
    after: ParserView,
    r: Result<PhpVisit, Error>,
) -> bool {
    match shape {
        PhpShape::Char | PhpShape::Str | PhpShape::Text => decoded_text(before, after, r),
        PhpShape::Optional => decoded_option(before, after, r),
        PhpShape::NewtypeStruct => after == before && hands(r, VisitView::Wrapped),
        PhpShape::Tuple(len) => decoded_tuple(before, after, r, len),
        PhpShape::TupleStruct(len) => decoded_tuple(before, after, r, len),
        PhpShape::Entries | PhpShape::Struct => decoded_map(before, after, r),
        PhpShape::Enum => decoded_enum(before, after, r),
        PhpShape::Identifier => decoded_identifier(before, after, r),
        _ => decoded_any(before, after, r),
    }
}

/// A decoder of typed values from PHP serialized data.
#[derive(Debug)]
pub struct PhpDeserializer<'de> {
    parser: PhpParser<'de>,
}

impl<'de> View for PhpDeserializer<'de> {
    type V = ParserView;

    closed spec fn view(&self) -> ParserView {
        self.parser@
    }
}

impl<'de> PhpDeserializer<'de> {
    /// A decoder at the start of `data`.
    #[must_use]
    pub fn new(data: &'de [u8]) -> (de: Self)
        ensures
            de@ == (ParserView { input: data@, position: 0, lookahead: None }),
            de@.wf(),
    {
        PhpDeserializer { parser: PhpParser::new(data) }
    }

    /// A decoder that goes on where `parser` stands.
    #[must_use]
    pub fn from_parser(parser: PhpParser<'de>) -> (de: Self)
        ensures
            de@ == parser@,
            de@.wf(),
    {
        proof {
            use_type_invariant(&parser);
        }
        PhpDeserializer { parser }
    }

    /// The tokenizer, where the decoder has left it.
    #[must_use]
    pub fn into_parser(self) -> (parser: PhpParser<'de>)
        ensures
            parser@ == self@,
            parser@.wf(),
    {
        proof {
            use_type_invariant(&self.parser);
        }
        self.parser
    }

    /// The offset up to which the input has been taken.
    #[must_use]
    pub fn position(&self) -> (position: usize)
        ensures
            position == self@.position,
    {
        self.parser.position()
    }

    /// Decodes the shape that the consumer asks for.
    pub fn deserialize(&mut self, shape: PhpShape) -> (r: Result<PhpVisit<'de>, Error>)
        ensures
            final(self)@.wf(),
            decoded(shape, old(self)@, final(self)@, r),
    {
        proof {
            use_type_invariant(&self.parser);
        }
        match shape {
            PhpShape::Char | PhpShape::Str | PhpShape::Text => self.deserialize_str(),
            PhpShape::Optional => self.deserialize_option(),
            PhpShape::NewtypeStruct => Ok(PhpVisit::Wrapped),
            PhpShape::Tuple(len) | PhpShape::TupleStruct(len) => self.deserialize_tuple(len),
            PhpShape::Entries | PhpShape::Struct => self.deserialize_map(),
            PhpShape::Enum => self.deserialize_enum(),
            PhpShape::Identifier => self.deserialize_identifier(),
            PhpShape::IgnoredAny => self.deserialize_ignored_any(),
            _ => self.deserialize_any(),
        }
    }

    /// What `token`, already taken, gives by its own kind.
    pub fn deserialize_token(&self, token: PhpToken<'de>) -> (r: Result<PhpVisit<'de>, Error>)
        ensures
            dispatch(token@, self@.position, r),
    {
        match token {
            PhpToken::Null => Ok(PhpVisit::Unit),
            PhpToken::Boolean(b) => Ok(PhpVisit::Bool(b)),
            PhpToken::Integer(i) => Ok(PhpVisit::Integer(i)),
            PhpToken::Float(numeral) => Ok(PhpVisit::Float(numeral)),
            PhpToken::String(s) => Ok(PhpVisit::Bytes(s.as_bytes())),
            PhpToken::Array { .. } => Ok(PhpVisit::Sequence),
            PhpToken::Object { .. } => Ok(PhpVisit::Entries),
            PhpToken::Reference(r) => Ok(PhpVisit::Integer(r)),
            PhpToken::End => Err(
                Error::from(
                    ErrorKind::Deserialize {
                        message: "Unexpected token".to_owned(),
                        position: Some(self.parser.position()),
                    },
                ),
            ),
        }
    }

    /// Takes the next token and hands over what it gives by its own kind,
    /// whatever the consumer had in mind.
    pub fn deserialize_any(&mut self) -> (r: Result<PhpVisit<'de>, Error>)
        ensures
            final(self)@.wf(),
            decoded_any(old(self)@, final(self)@, r),
    {
        match self.parser.read_token() {
            Ok(token) => self.deserialize_token(token),
            Err(e) => Err(e),
        }
    }

    /// Takes the next token; a string is handed over as text, and has to be
    /// valid UTF-8. Any other token gives what it gives by its own kind.
    pub fn deserialize_str(&mut self) -> (r: Result<PhpVisit<'de>, Error>)
        ensures
            final(self)@.wf(),
            decoded_text(old(self)@, final(self)@, r),
    {
        match self.parser.read_token() {
            Ok(PhpToken::String(s)) => match s.to_str() {
                Ok(text) => Ok(PhpVisit::Text(text)),
                Err(e) => Err(e),
            },
            Ok(token) => self.deserialize_token(token),
            Err(e) => Err(e),
        }
    }

    /// Looks at the next token. A null is taken, and stands for no value;
    /// before any other token the cursor stays, and the value is decoded by
    /// the call that follows, from the token that was looked at.
    pub fn deserialize_option(&mut self) -> (r: Result<PhpVisit<'de>, Error>)
        ensures
            final(self)@.wf(),
            decoded_option(old(self)@, final(self)@, r),
    {
        let peeked = match self.parser.peek_token() {
            Ok(Some(kind)) => kind,
            Ok(None) => {
                return Err(Error::from(ErrorKind::Eof));
            },
            Err(e) => {
                return Err(e);
            },
        };
        if matches!(peeked, PhpTokenKind::Null) {
            return match self.parser.read_token() {
                Ok(_) => Ok(PhpVisit::Absent),
                Err(e) => Err(e),
            };
        }
        Ok(PhpVisit::Present)
    }

    /// Takes the header of an array that declares exactly `len` items. Here
    /// alone the declared count is held to something.
    pub fn deserialize_tuple(&mut self, len: usize) -> (r: Result<PhpVisit<'de>, Error>)
        ensures
            final(self)@.wf(),
            decoded_tuple(old(self)@, final(self)@, r, len),
    {
        match self.parser.next_token() {
            Ok(Some(PhpToken::Array { elements })) => {
                if elements as usize == len {
                    Ok(PhpVisit::Sequence)
                } else {
                    Err(
                        Error::from(
                            ErrorKind::Deserialize {
                                message: "Array length mismatch".to_owned(),
                                position: Some(self.parser.position()),
                            },
                        ),
                    )
                }
            },
            Ok(_) => Err(
                Error::from(
                    ErrorKind::Deserialize {
                        message: "Expected array".to_owned(),
                        position: Some(self.parser.position()),
                    },
                ),
            ),
            Err(e) => Err(e),
        }
    }

    /// Takes the header of an array or of an object, whose body is then
    /// walked key by key. The class of an object is not handed on.
    pub fn deserialize_map(&mut self) -> (r: Result<PhpVisit<'de>, Error>)
        ensures
            final(self)@.wf(),
            decoded_map(old(self)@, final(self)@, r),
    {
        match self.parser.read_token() {
            Ok(PhpToken::Array { .. }) | Ok(PhpToken::Object { .. }) => Ok(PhpVisit::Entries),
            Ok(_) => Err(
                Error::from(
                    ErrorKind::Deserialize {
                        message: "Expected array or object".to_owned(),
                        position: Some(self.parser.position()),
                    },
                ),
            ),
            Err(e) => Err(e),
        }
    }

    /// Looks at the next token, with which an enum has to start: a string,
    /// an integer, a boolean or an array. The token is not taken.
    pub fn deserialize_enum(&mut self) -> (r: Result<PhpVisit<'de>, Error>)
        ensures
            final(self)@.wf(),
            decoded_enum(old(self)@, final(self)@, r),
    {
        match self.parser.peek_token() {
            Ok(
                Some(
                    PhpTokenKind::String
                    | PhpTokenKind::Integer
                    | PhpTokenKind::Boolean
                    | PhpTokenKind::Array,
                ),
            ) => Ok(PhpVisit::Variant),
            Ok(_) => Err(
                Error::from(
                    ErrorKind::Deserialize {
                        message: "Expected token for enum variant".to_owned(),
                        position: Some(self.parser.position()),
                    },
                ),
            ),
            Err(e) => Err(e),
        }
    }

    /// Takes the token that names the variant of an enum: a string, handed
    /// over as text.
    pub fn deserialize_variant(&mut self) -> (r: Result<PhpVisit<'de>, Error>)
        ensures
            final(self)@.wf(),
            decoded_variant(old(self)@, final(self)@, r),
    {
        match self.parser.read_token() {
            Ok(PhpToken::String(s)) => match s.to_str() {
                Ok(text) => Ok(PhpVisit::Text(text)),
                Err(e) => Err(e),
            },
            Ok(_) => Err(
                Error::from(
                    ErrorKind::Deserialize {
                        message: "Expected string for enum variant".to_owned(),
                        position: Some(self.parser.position()),
                    },
                ),
            ),
            Err(e) => Err(e),
        }
    }

    /// Takes the next token; a string is taken for the serialized name of a
    /// property and its clean name handed over as text, the visibility
    /// dropped. Any other token gives what it gives by its own kind.
    pub fn deserialize_identifier(&mut self) -> (r: Result<PhpVisit<'de>, Error>)
        ensures
            final(self)@.wf(),
            decoded_identifier(old(self)@, final(self)@, r),
    {
        match self.parser.read_token() {
            Ok(PhpToken::String(s)) => match s.to_property() {
                Ok((name, _)) => Ok(PhpVisit::Name(name)),
                Err(e) => Err(e),
            },
            Ok(token) => self.deserialize_token(token),
            Err(e) => Err(e),
        }
    }

    /// Takes a value that the consumer will drop. The value is walked all
    /// the same, so that what follows it can be decoded.
    pub fn deserialize_ignored_any(&mut self) -> (r: Result<PhpVisit<'de>, Error>)
        ensures
            final(self)@.wf(),
            decoded_any(old(self)@, final(self)@, r),
    {
        self.deserialize_any()
    }

    /// Whether another item of the body follows. Where the `}` that closes
    /// the body is next, it is taken and the walk is over; before any other
    /// token the cursor stays.
    pub fn next_element(&mut self) -> (r: Result<bool, Error>)
        ensures
            final(self)@.wf(),
            asked_next(old(self)@, final(self)@, r),
    {
        let peeked = match self.parser.peek_token() {
            Ok(Some(kind)) => kind,
            Ok(None) => {
                return Err(Error::from(ErrorKind::Eof));
            },
            Err(e) => {
                return Err(e);
            },
        };
        if matches!(peeked, PhpTokenKind::End) {
            self.parser.consume_lookahead();
            return Ok(false);
        }
        Ok(true)
    }

    /// Whether another key of the body follows, as `next_element` has it.
    pub fn next_key(&mut self) -> (r: Result<bool, Error>)
        ensures
            final(self)@.wf(),
            asked_next(old(self)@, final(self)@, r),
    {
        self.next_element()
    }
}

} // verus!
