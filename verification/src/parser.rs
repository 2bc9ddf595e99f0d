//! The tokenizer: a cursor over the input that classifies the next token
//! without taking it, and takes tokens one at a time.

use crate::bytes::{
    lemma_run_is, CLOSE_BRACE, COLON, LOWER_A, LOWER_B, LOWER_D, LOWER_I, LOWER_R, LOWER_S,
    NEWLINE, ONE, OPEN_BRACE, SEMICOLON, UPPER_N, UPPER_O, ZERO,
};
use crate::errors::{Error, ErrorKind};
use crate::grammar::{
    array_at, boolean_at, expect_at, float_at, integer_at, null_at, object_at, peek_at,
    scalar_fault, string_at, tag_kind, tag_scan, token_at, Step, Tag,
};
use crate::scalar::{
    lemma_count_scan, lemma_float_scan, lemma_integer_scan, lemma_string_scan, read_float,
    read_str, read_u32, to_i64, ScalarError,
};
use crate::token::{PhpToken, PhpTokenKind, TokenView};
use vstd::prelude::*;
use vstd::slice::slice_subrange;

verus! {

broadcast use Error::lemma_of_view;

/// The state of a tokenizer: the whole input, the offset up to which it has
/// been taken, and the kind of the next token where a peek has found it,
/// with the offset just after its tag.
pub struct ParserView {
    pub input: Seq<u8>,
    pub position: int,
    pub lookahead: Option<(PhpTokenKind, int)>,
}

impl ParserView {
    /// The cursor lies within the input, and what was peeked is the tag
    /// that stands at the cursor.
    pub open spec fn wf(self) -> bool {
        &&& 0 <= self.position <= self.input.len() <= usize::MAX
        &&& match self.lookahead {
            Some((kind, after)) => {
                &&& self.position < after <= self.input.len()
                &&& tag_scan(self.input.skip(self.position)) == (Tag::Kind {
                    kind,
                    len: after - self.position,
                })
            },
            None => true,
        }
    }

    /// The state with the cursor at `position` and nothing peeked.
    pub open spec fn at(self, position: int) -> ParserView {
        ParserView { input: self.input, position, lookahead: None }
    }

    /// What a peek returns.
    pub open spec fn peek(self) -> Result<Option<PhpTokenKind>, ErrorKind> {
        peek_at(self.input, self.position)
    }

    /// The state after a peek: the cursor has not moved, and the kind that
    /// was found, if one was, is kept.
    pub open spec fn peeked(self) -> ParserView {
        ParserView {
            input: self.input,
            position: self.position,
            lookahead: match tag_scan(self.input.skip(self.position)) {
                Tag::Kind { kind, len } => Some((kind, self.position + len)),
                _ => None,
            },
        }
    }

    /// The state once what was peeked is taken: the cursor stands just
    /// after the tag of the token, whose payload has not been read.
    pub open spec fn consumed(self) -> ParserView {
        match self.lookahead {
            Some((_, after)) => self.at(after),
            None => self,
        }
    }

    /// What pulling the next token returns, and where the cursor then rests.
    pub open spec fn next(self) -> Step {
        token_at(self.input, self.position)
    }
}

/// The result of a call with the error taken for its kind.
pub open spec fn outcome<T>(r: Result<T, Error>) -> Result<T, ErrorKind> {
    match r {
        Ok(value) => Ok(value),
        Err(e) => Err(e@),
    }
}

/// The result of a pull with the token and the error taken as values.
pub open spec fn pulled(r: Result<Option<PhpToken>, Error>) -> Result<
    Option<TokenView>,
    ErrorKind,
> {
    match r {
        Ok(Some(token)) => Ok(Some(token@)),
        Ok(None) => Ok(None),
        Err(e) => Err(e@),
    }
}

/// The result of reading a payload with the token and the error taken as
/// values.
pub open spec fn produced(r: Result<PhpToken, Error>) -> Result<Option<TokenView>, ErrorKind> {
    match r {
        Ok(token) => Ok(Some(token@)),
        Err(e) => Err(e@),
    }
}

/// The kind that a tag byte announces.
pub fn classify(byte: u8) -> (kind: Option<PhpTokenKind>)
    ensures
        kind == tag_kind(byte),
{
    if byte == UPPER_N {
        Some(PhpTokenKind::Null)
    } else if byte == LOWER_B {
        Some(PhpTokenKind::Boolean)
    } else if byte == LOWER_I {
        Some(PhpTokenKind::Integer)
    } else if byte == LOWER_D {
        Some(PhpTokenKind::Float)
    } else if byte == LOWER_S {
        Some(PhpTokenKind::String)
    } else if byte == LOWER_A {
        Some(PhpTokenKind::Array)
    } else if byte == UPPER_O {
        Some(PhpTokenKind::Object)
    } else if byte == LOWER_R {
        Some(PhpTokenKind::Reference)
    } else if byte == CLOSE_BRACE {
        Some(PhpTokenKind::End)
    } else {
        None
    }
}

/// A tokenizer over one input. It borrows the input, and the strings and
/// numerals of its tokens are views of it.
#[derive(Debug)]
pub struct PhpParser<'a> {
    data: &'a [u8],
    lookahead: Option<(PhpTokenKind, usize)>,
    position: usize,
}

impl<'a> View for PhpParser<'a> {
    type V = ParserView;

    closed spec fn view(&self) -> ParserView {
        ParserView {
            input: self.data@,
            position: self.position as int,
            lookahead: match self.lookahead {
                Some((kind, after)) => Some((kind, after as int)),
                None => None,
            },
        }
    }
}

impl<'a> PhpParser<'a> {
    /// Every tokenizer is in a state that is well formed.
    #[verifier::type_invariant]
    pub open spec fn inv(self) -> bool {
        self@.wf()
    }

    /// A tokenizer at the start of `data`.
    #[must_use]
    pub fn new(data: &'a [u8]) -> (parser: Self)
        ensures
            parser@ == (ParserView { input: data@, position: 0, lookahead: None }),
            parser@.wf(),
    {
        proof {
            vstd::slice::axiom_spec_len(data);
        }
        Self { data, lookahead: None, position: 0 }
    }

    /// The offset up to which the input has been taken.
    #[inline]
    #[must_use]
    pub fn position(&self) -> (position: usize)
        ensures
            position == self@.position,
    {
        self.position
    }

    /// The input from the cursor on.
    pub fn data(&self) -> (rest: &'a [u8])
        ensures
            rest@ == self@.input.skip(self@.position),
    {
        proof {
            use_type_invariant(&*self);
        }
        slice_subrange(self.data, self.position, self.data.len())
    }

    /// Requires the byte at the cursor to be `expected`, and passes it.
    fn expect_byte(&mut self, expected: u8) -> (r: Result<(), Error>)
        requires
            old(self)@.lookahead is None,
        ensures
            final(self)@.wf(),
            match expect_at(old(self)@.input, old(self)@.position, expected) {
                Some(kind) => r matches Err(e) && e@ == kind && final(self)@ == old(self)@,
                None => r is Ok && final(self)@ == old(self)@.at(old(self)@.position + 1),
            },
    {
        proof {
            use_type_invariant(&*self);
        }
        if self.position >= self.data.len() {
            return Err(Error::from(ErrorKind::Eof));
        }
        let c = self.data[self.position];
        if c != expected {
            return Err(
                Error::from(
                    ErrorKind::MismatchByte { expected, found: c, position: self.position },
                ),
            );
        }
        self.position = self.position + 1;
        Ok(())
    }

    /// Takes what was peeked, if anything, then requires the byte at the
    /// cursor to be `expected`, and passes it.
    pub fn expect(&mut self, expected: u8) -> (r: Result<(), Error>)
        ensures
            final(self)@.wf(),
            match expect_at(
                old(self)@.input,
                old(self)@.consumed().position,
                expected,
            ) {
                Some(kind) => r matches Err(e) && e@ == kind && final(self)@ == old(
                    self,
                )@.consumed(),
                None => r is Ok && final(self)@ == old(self)@.at(
                    old(self)@.consumed().position + 1,
                ),
            },
    {
        proof {
            use_type_invariant(&*self);
        }
        self.consume_lookahead();
        self.expect_byte(expected)
    }

    /// Finds the tag of the next token, passing over line feeds.
    fn read_next(&self) -> (r: Result<Option<(PhpTokenKind, usize)>, Error>)
        ensures
            match tag_scan(self@.input.skip(self@.position)) {
                Tag::Nothing => r matches Ok(None),
                Tag::Kind { kind, len } => r matches Ok(Some(found)) && found.0 == kind && found.1
                    == self@.position + len && found.1 <= self@.input.len(),
                Tag::Bad { found } => r matches Err(e) && e@ == (ErrorKind::UnexpectedByte {
                    found,
                    position: self@.position as usize,
                }),
            },
    {
        proof {
            use_type_invariant(&*self);
        }
        let len = self.data.len();
        let start = self.position;
        let mut i: usize = start;
        while i < len && self.data[i] == NEWLINE
            invariant
                start <= i <= len,
                len == self.data@.len(),
                forall|j: int|
                    0 <= j < i - start ==> (#[trigger] self.data@.skip(start as int)[j])
                        == NEWLINE,
            decreases len - i,
        {
            i += 1;
        }
        proof {
            lemma_run_is(self.data@.skip(start as int), |b: u8| b == NEWLINE, (i - start) as nat);
        }
        if i >= len {
            return Ok(None);
        }
        let c = self.data[i];
        match classify(c) {
            Some(kind) => Ok(Some((kind, i + 1))),
            None => Err(Error::from(ErrorKind::UnexpectedByte { found: c, position: start })),
        }
    }

    /// Takes what was peeked: the cursor moves just past the tag of the
    /// token, whose payload is not read.
    pub fn consume_lookahead(&mut self)
        ensures
            final(self)@.wf(),
            final(self)@ == old(self)@.consumed(),
    {
        proof {
            use_type_invariant(&*self);
        }
        if let Some((_, position)) = self.lookahead {
            self.lookahead = None;
            self.position = position;
        }
    }

    /// The kind of the next token, which is not taken: the cursor stays,
    /// and the kind is kept for the pull that follows.
    pub fn peek_token(&mut self) -> (r: Result<Option<PhpTokenKind>, Error>)
        ensures
            final(self)@.wf(),
            final(self)@ == old(self)@.peeked(),
            outcome(r) == old(self)@.peek(),
    {
        proof {
            use_type_invariant(&*self);
        }
        if let Some((kind, _)) = self.lookahead {
            return Ok(Some(kind));
        }
        match self.read_next() {
            Ok(Some((kind, position))) => {
                self.lookahead = Some((kind, position));
                Ok(Some(kind))
            },
            Ok(None) => Ok(None),
            Err(e) => Err(e),
        }
    }

    /// Pulls the next token, which has to be there.
    #[inline]
    pub fn read_token(&mut self) -> (r: Result<PhpToken<'a>, Error>)
        ensures
            final(self)@.wf(),
            final(self)@ == old(self)@.at(old(self)@.next().position),
            produced(r) == match old(self)@.next().result {
                Ok(None) => Err(ErrorKind::Eof),
                other => other,
            },
    {
        proof {
            use_type_invariant(&*self);
        }
        match self.next_token() {
            Ok(Some(token)) => Ok(token),
            Ok(None) => Err(Error::from(ErrorKind::Eof)),
            Err(e) => Err(e),
        }
    }

    /// Pulls the next token. `None` is returned at a clean end of the input
    /// only: where nothing but line feeds is left.
    #[inline]
    pub fn next_token(&mut self) -> (r: Result<Option<PhpToken<'a>>, Error>)
        ensures
            final(self)@.wf(),
            final(self)@ == old(self)@.at(old(self)@.next().position),
            pulled(r) == old(self)@.next().result,
    {
        proof {
            use_type_invariant(&*self);
        }
        let (kind, position) = match self.lookahead {
            Some(pending) => pending,
            None => match self.read_next() {
                Ok(Some(found)) => found,
                Ok(None) => {
                    return Ok(None);
                },
                Err(e) => {
                    return Err(e);
                },
            },
        };
        self.lookahead = None;
        self.position = position;
        let token = match kind {
            PhpTokenKind::End => Ok(PhpToken::End),
            PhpTokenKind::Null => self.read_null(),
            PhpTokenKind::Boolean => self.read_boolean(),
            PhpTokenKind::Integer => self.read_integer(false),
            PhpTokenKind::Float => self.read_float(),
            PhpTokenKind::String => self.read_string(),
            PhpTokenKind::Array => self.read_array(),
            PhpTokenKind::Object => self.read_object(),
            PhpTokenKind::Reference => self.read_integer(true),
        };
        match token {
            Ok(token) => Ok(Some(token)),
            Err(e) => Err(e),
        }
    }

    /// Reads the payload of a null.
    fn read_null(&mut self) -> (r: Result<PhpToken<'a>, Error>)
        requires
            old(self)@.lookahead is None,
        ensures
            final(self)@.wf(),
            final(self)@ == old(self)@.at(
                null_at(old(self)@.input, old(self)@.position).position,
            ),
            produced(r) == null_at(old(self)@.input, old(self)@.position).result,
    {
        proof {
            use_type_invariant(&*self);
        }
        match self.expect_byte(SEMICOLON) {
            Ok(()) => Ok(PhpToken::Null),
            Err(e) => Err(e),
        }
    }

    /// Reads the payload of a boolean.
    fn read_boolean(&mut self) -> (r: Result<PhpToken<'a>, Error>)
        requires
            old(self)@.lookahead is None,
        ensures
            final(self)@.wf(),
            final(self)@ == old(self)@.at(
                boolean_at(old(self)@.input, old(self)@.position).position,
            ),
            produced(r) == boolean_at(old(self)@.input, old(self)@.position).result,
    {
        proof {
            use_type_invariant(&*self);
        }
        if let Err(e) = self.expect_byte(COLON) {
            return Err(e);
        }
        if self.position >= self.data.len() {
            return Err(Error::from(ErrorKind::Eof));
        }
        let c = self.data[self.position];
        if c != ZERO && c != ONE {
            return Err(
                Error::from(ErrorKind::UnexpectedByte { found: c, position: self.position }),
            );
        }
        self.position = self.position + 1;
        match self.expect_byte(SEMICOLON) {
            Ok(()) => Ok(PhpToken::Boolean(c == ONE)),
            Err(e) => Err(e),
        }
    }

    /// Reads the payload of an integer or of a reference.
    fn read_integer(&mut self, reference: bool) -> (r: Result<PhpToken<'a>, Error>)
        requires
            old(self)@.lookahead is None,
        ensures
            final(self)@.wf(),
            final(self)@ == old(self)@.at(
                integer_at(old(self)@.input, old(self)@.position, reference).position,
            ),
            produced(r) == integer_at(
                old(self)@.input,
                old(self)@.position,
                reference,
            ).result,
    {
        proof {
            use_type_invariant(&*self);
        }
        if let Err(e) = self.expect_byte(COLON) {
            return Err(e);
        }
        let data = self.data();
        proof {
            lemma_integer_scan(data@);
        }
        match to_i64(data) {
            Ok((value, rest)) => {
                self.position = self.position + (data.len() - rest.len());
                Ok(
                    if reference {
                        PhpToken::Reference(value)
                    } else {
                        PhpToken::Integer(value)
                    },
                )
            },
            Err(e) => Err(self.map_error(e)),
        }
    }

    /// Reads the payload of a float.
    fn read_float(&mut self) -> (r: Result<PhpToken<'a>, Error>)
        requires
            old(self)@.lookahead is None,
        ensures
            final(self)@.wf(),
            final(self)@ == old(self)@.at(
                float_at(old(self)@.input, old(self)@.position).position,
            ),
            produced(r) == float_at(old(self)@.input, old(self)@.position).result,
    {
        proof {
            use_type_invariant(&*self);
        }
        if let Err(e) = self.expect_byte(COLON) {
            return Err(e);
        }
        let data = self.data();
        proof {
            lemma_float_scan(data@);
        }
        let (numeral, rest) = match read_float(data) {
            Ok(read) => read,
            Err(e) => {
                return Err(self.map_error(e));
            },
        };
        self.position = self.position + (data.len() - rest.len());
        match self.expect_byte(SEMICOLON) {
            Ok(()) => Ok(PhpToken::Float(numeral)),
            Err(e) => Err(e),
        }
    }

    /// Reads the payload of a string.
    fn read_string(&mut self) -> (r: Result<PhpToken<'a>, Error>)
        requires
            old(self)@.lookahead is None,
        ensures
            final(self)@.wf(),
            final(self)@ == old(self)@.at(
                string_at(old(self)@.input, old(self)@.position).position,
            ),
            produced(r) == string_at(old(self)@.input, old(self)@.position).result,
    {
        proof {
            use_type_invariant(&*self);
        }
        if let Err(e) = self.expect_byte(COLON) {
            return Err(e);
        }
        let data = self.data();
        proof {
            lemma_string_scan(data@);
        }
        let (bytes, rest) = match read_str(data) {
            Ok(read) => read,
            Err(e) => {
                return Err(self.map_error(e));
            },
        };
        self.position = self.position + (data.len() - rest.len());
        match self.expect_byte(SEMICOLON) {
            Ok(()) => Ok(PhpToken::String(bytes)),
            Err(e) => Err(e),
        }
    }

    /// Reads a count and the brace that opens a body.
    fn read_count(&mut self) -> (r: Result<u32, Error>)
        requires
            old(self)@.lookahead is None,
        ensures
            final(self)@.wf(),
            final(self)@ == old(self)@.at(
                array_at(old(self)@.input, old(self)@.position).position,
            ),
            match array_at(old(self)@.input, old(self)@.position).result {
                Ok(Some(TokenView::Array { elements })) => r == Ok::<u32, Error>(elements),
                Ok(_) => false,
                Err(kind) => r matches Err(e) && e@ == kind,
            },
    {
        proof {
            use_type_invariant(&*self);
        }
        if let Err(e) = self.expect_byte(COLON) {
            return Err(e);
        }
        let data = self.data();
        proof {
            lemma_count_scan(data@, COLON);
        }
        let (count, rest) = match read_u32(data, COLON) {
            Ok(read) => read,
            Err(e) => {
                return Err(self.map_error(e));
            },
        };
        self.position = self.position + (data.len() - rest.len());
        match self.expect_byte(OPEN_BRACE) {
            Ok(()) => Ok(count),
            Err(e) => Err(e),
        }
    }

    /// Reads the payload of an array: its header.
    fn read_array(&mut self) -> (r: Result<PhpToken<'a>, Error>)
        requires
            old(self)@.lookahead is None,
        ensures
            final(self)@.wf(),
            final(self)@ == old(self)@.at(
                array_at(old(self)@.input, old(self)@.position).position,
            ),
            produced(r) == array_at(old(self)@.input, old(self)@.position).result,
    {
        proof {
            use_type_invariant(&*self);
        }
        match self.read_count() {
            Ok(elements) => Ok(PhpToken::Array { elements }),
            Err(e) => Err(e),
        }
    }

    /// Reads the payload of an object: its header.
    fn read_object(&mut self) -> (r: Result<PhpToken<'a>, Error>)
        requires
            old(self)@.lookahead is None,
        ensures
            final(self)@.wf(),
            final(self)@ == old(self)@.at(
                object_at(old(self)@.input, old(self)@.position).position,
            ),
            produced(r) == object_at(old(self)@.input, old(self)@.position).result,
    {
        proof {
            use_type_invariant(&*self);
        }
        if let Err(e) = self.expect_byte(COLON) {
            return Err(e);
        }
        let data = self.data();
        proof {
            lemma_string_scan(data@);
        }
        let (class, rest) = match read_str(data) {
            Ok(read) => read,
            Err(e) => {
                return Err(self.map_error(e));
            },
        };
        self.position = self.position + (data.len() - rest.len());
        match self.read_count() {
            Ok(properties) => Ok(PhpToken::Object { class, properties }),
            Err(e) => Err(e),
        }
    }

    /// The error for a scalar that could not be read at the cursor.
    fn map_error(&self, error: ScalarError) -> (e: Error)
        ensures
            e@ == scalar_fault(error, self@.position as usize),
    {
        match error {
            ScalarError::StringTooLong => Error::from(
                ErrorKind::StringTooLong { position: self.position },
            ),
            ScalarError::MissingQuotes => Error::from(
                ErrorKind::MissingQuotes { position: self.position },
            ),
            ScalarError::Empty => Error::from(ErrorKind::Empty { position: self.position }),
            ScalarError::Overflow => Error::from(ErrorKind::Overflow { position: self.position }),
            ScalarError::Invalid => Error::from(
                ErrorKind::InvalidNumber { position: self.position },
            ),
            ScalarError::Eof => Error::from(ErrorKind::Eof),
        }
    }
}

} // verus!
