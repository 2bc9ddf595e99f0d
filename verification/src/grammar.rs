//! The grammar of the token stream, stated over the whole input and byte
//! offsets into it: what the tokenizer reads at an offset, where it stops,
//! and with which error.

use crate::bytes::{
    run, CLOSE_BRACE, COLON, LOWER_A, LOWER_B, LOWER_D, LOWER_I, LOWER_R, LOWER_S, NEWLINE, ONE,
    OPEN_BRACE, SEMICOLON, UPPER_N, UPPER_O, ZERO,
};
use crate::errors::ErrorKind;
use crate::scalar::{count_scan, float_scan, integer_scan, string_scan, ScalarError};
use crate::token::{PhpTokenKind, TokenView};
use vstd::prelude::*;

verus! {

/// The kind that a tag byte announces.
pub open spec fn tag_kind(byte: u8) -> Option<PhpTokenKind> {
    if byte == UPPER_N {
        Some(PhpTokenKind::Null)
    } else if byte == LOWER_B {
        Some(PhpTokenKind::Boolean)
    } else if byte == LOWER_I {
        Some(PhpTokenKind::Integer)
    } else if byte == LOWER_D {
        Some(PhpTokenKind::Float)
    } else if byte == LOWER_S {
        Some(PhpTokenKind::String)
    } else if byte == LOWER_A {
        Some(PhpTokenKind::Array)
    } else if byte == UPPER_O {
        Some(PhpTokenKind::Object)
    } else if byte == LOWER_R {
        Some(PhpTokenKind::Reference)
    } else if byte == CLOSE_BRACE {
        Some(PhpTokenKind::End)
    } else {
        None
    }
}

/// What stands at the front of some bytes once the line feeds are passed.
pub enum Tag {
    /// Nothing: the bytes are line feeds only, or none.
    Nothing,
    /// A tag of this kind; `len` bytes are taken, the tag byte among them.
    Kind { kind: PhpTokenKind, len: int },
    /// A byte that is no tag.
    Bad { found: u8 },
}

/// The tag at the front of `s`. Between tokens only line feeds are passed
/// over.
pub open spec fn tag_scan(s: Seq<u8>) -> Tag {
    let n = run(s, |b: u8| b == NEWLINE);
    if n >= s.len() {
        Tag::Nothing
    } else {
        match tag_kind(s[n as int]) {
            Some(kind) => Tag::Kind { kind, len: n as int + 1 },
            None => Tag::Bad { found: s[n as int] },
        }
    }
}

/// The error for a scalar that could not be read at `position`.
pub open spec fn scalar_fault(error: ScalarError, position: usize) -> ErrorKind {
    match error {
        ScalarError::StringTooLong => ErrorKind::StringTooLong { position },
        ScalarError::MissingQuotes => ErrorKind::MissingQuotes { position },
        ScalarError::Empty => ErrorKind::Empty { position },
        ScalarError::Overflow => ErrorKind::Overflow { position },
        ScalarError::Invalid => ErrorKind::InvalidNumber { position },
        ScalarError::Eof => ErrorKind::Eof,
    }
}

/// One pull on the token stream: what is returned, and the offset at which
/// the cursor then rests. After an error that is where the piece that
/// failed began.
pub struct Step {
    pub result: Result<Option<TokenView>, ErrorKind>,
    pub position: int,
}

/// The pull that stops with `kind` at `at`.
pub open spec fn fail(kind: ErrorKind, at: int) -> Step {
    Step { result: Err(kind), position: at }
}

/// The pull that returns `token`, which ends at `end`.
pub open spec fn token(token: TokenView, end: int) -> Step {
    Step { result: Ok(Some(token)), position: end }
}

/// The error, if any, of requiring the byte `expected` at `at`.
pub open spec fn expect_at(input: Seq<u8>, at: int, expected: u8) -> Option<ErrorKind> {
    if at >= input.len() {
        Some(ErrorKind::Eof)
    } else if input[at] != expected {
        Some(ErrorKind::MismatchByte { expected, found: input[at], position: at as usize })
    } else {
        None
    }
}

/// `N` `;`
pub open spec fn null_at(input: Seq<u8>, p: int) -> Step {
    match expect_at(input, p, SEMICOLON) {
        Some(e) => fail(e, p),
        None => token(TokenView::Null, p + 1),
    }
}

/// `b` `:` (`0` | `1`) `;`
pub open spec fn boolean_at(input: Seq<u8>, p: int) -> Step {
    match expect_at(input, p, COLON) {
        Some(e) => fail(e, p),
        None => if p + 1 >= input.len() {
            fail(ErrorKind::Eof, p + 1)
        } else if input[p + 1] != ZERO && input[p + 1] != ONE {
            fail(
                ErrorKind::UnexpectedByte { found: input[p + 1], position: (p + 1) as usize },
                p + 1,
            )
        } else {
            match expect_at(input, p + 2, SEMICOLON) {
                Some(e) => fail(e, p + 2),
                None => token(TokenView::Boolean(input[p + 1] == ONE), p + 3),
            }
        },
    }
}

/// `i` `:` INTEGER `;` and `r` `:` INTEGER `;`
pub open spec fn integer_at(input: Seq<u8>, p: int, reference: bool) -> Step {
    match expect_at(input, p, COLON) {
        Some(e) => fail(e, p),
        None => match integer_scan(input.skip(p + 1)) {
            Err(e) => fail(scalar_fault(e, (p + 1) as usize), p + 1),
            Ok((value, used)) => token(
                if reference {
                    TokenView::Reference(value)
                } else {
                    TokenView::Integer(value)
                },
                p + 1 + used,
            ),
        },
    }
}

/// `d` `:` FLOAT `;`
pub open spec fn float_at(input: Seq<u8>, p: int) -> Step {
    match expect_at(input, p, COLON) {
        Some(e) => fail(e, p),
        None => match float_scan(input.skip(p + 1)) {
            Err(e) => fail(scalar_fault(e, (p + 1) as usize), p + 1),
            Ok((numeral, used)) => match expect_at(input, p + 1 + used, SEMICOLON) {
                Some(e) => fail(e, p + 1 + used),
                None => token(TokenView::Float(numeral), p + 1 + used + 1),
            },
        },
    }
}

/// `s` `:` LEN `:` `"` BYTES `"` `;`
pub open spec fn string_at(input: Seq<u8>, p: int) -> Step {
    match expect_at(input, p, COLON) {
        Some(e) => fail(e, p),
        None => match string_scan(input.skip(p + 1)) {
            Err(e) => fail(scalar_fault(e, (p + 1) as usize), p + 1),
            Ok((bytes, used)) => match expect_at(input, p + 1 + used, SEMICOLON) {
                Some(e) => fail(e, p + 1 + used),
                None => token(TokenView::String(bytes), p + 1 + used + 1),
            },
        },
    }
}

/// `a` `:` COUNT `:` `{`
pub open spec fn array_at(input: Seq<u8>, p: int) -> Step {
    match expect_at(input, p, COLON) {
        Some(e) => fail(e, p),
        None => match count_scan(input.skip(p + 1), COLON) {
            Err(e) => fail(scalar_fault(e, (p + 1) as usize), p + 1),
            Ok((elements, used)) => match expect_at(input, p + 1 + used, OPEN_BRACE) {
                Some(e) => fail(e, p + 1 + used),
                None => token(TokenView::Array { elements }, p + 1 + used + 1),
            },
        },
    }
}

/// The count and the brace that follow the class of an object, from `q`:
/// `:` COUNT `:` `{`
pub open spec fn properties_at(input: Seq<u8>, class: Seq<u8>, q: int) -> Step {
    match expect_at(input, q, COLON) {
        Some(e) => fail(e, q),
        None => match count_scan(input.skip(q + 1), COLON) {
            Err(e) => fail(scalar_fault(e, (q + 1) as usize), q + 1),
            Ok((properties, used)) => match expect_at(input, q + 1 + used, OPEN_BRACE) {
                Some(e) => fail(e, q + 1 + used),
                None => token(TokenView::Object { class, properties }, q + 1 + used + 1),
            },
        },
    }
}

/// `O` `:` LEN `:` `"` CLASS `"` `:` COUNT `:` `{`
pub open spec fn object_at(input: Seq<u8>, p: int) -> Step {
    match expect_at(input, p, COLON) {
        Some(e) => fail(e, p),
        None => match string_scan(input.skip(p + 1)) {
            Err(e) => fail(scalar_fault(e, (p + 1) as usize), p + 1),
            Ok((class, used)) => properties_at(input, class, p + 1 + used),
        },
    }
}

/// The token of kind `kind` whose payload starts at `p`, just after the tag.
pub open spec fn payload_at(input: Seq<u8>, kind: PhpTokenKind, p: int) -> Step {
    match kind {
        PhpTokenKind::End => token(TokenView::End, p),
        PhpTokenKind::Null => null_at(input, p),
        PhpTokenKind::Boolean => boolean_at(input, p),
        PhpTokenKind::Integer => integer_at(input, p, false),
        PhpTokenKind::Float => float_at(input, p),
        PhpTokenKind::String => string_at(input, p),
        PhpTokenKind::Array => array_at(input, p),
        PhpTokenKind::Object => object_at(input, p),
        PhpTokenKind::Reference => integer_at(input, p, true),
    }
}

/// What a peek at offset `p` returns: the kind of the token there, nothing
/// at a clean end of the input, or the byte that is no tag.
pub open spec fn peek_at(input: Seq<u8>, p: int) -> Result<Option<PhpTokenKind>, ErrorKind> {
    match tag_scan(input.skip(p)) {
        Tag::Nothing => Ok(None),
        Tag::Kind { kind, .. } => Ok(Some(kind)),
        Tag::Bad { found } => Err(ErrorKind::UnexpectedByte { found, position: p as usize }),
    }
}

/// The pull of the token at offset `p`.
pub open spec fn token_at(input: Seq<u8>, p: int) -> Step {
    match tag_scan(input.skip(p)) {
        Tag::Nothing => Step { result: Ok(None), position: p },
        Tag::Kind { kind, len } => payload_at(input, kind, p + len),
        Tag::Bad { found } => fail(ErrorKind::UnexpectedByte { found, position: p as usize }, p),
    }
}

} // verus!
