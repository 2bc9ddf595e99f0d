//! Tokens, their kinds, and what a token is once the borrowed bytes are
//! taken for the sequences they hold.

use crate::bstr::PhpBstr;
use vstd::prelude::*;

verus! {

/// The kind of a token: its tag alone, known before the payload is read.
#[derive(Debug, PartialEq, Clone, Copy, Eq, Hash, Structural)]
pub enum PhpTokenKind {
    Null,
    Boolean,
    Integer,
    Float,
    String,
    Array,
    Object,
    End,
    Reference,
}

/// A token of the serialized form.
///
/// A float holds its numeral as written and a string its bytes, both as
/// views of the input. An integer and a reference have 64 bits. The counts
/// of an array and of an object are what the input declares; nothing holds
/// the tokens that follow to them.
#[derive(Debug, PartialEq)]
pub enum PhpToken<'a> {
    Null,
    Boolean(bool),
    Integer(i64),
    Float(PhpBstr<'a>),
    String(PhpBstr<'a>),
    Array { elements: u32 },
    Object { class: PhpBstr<'a>, properties: u32 },
    End,
    Reference(i64),
}

/// A token as a value: the bytes it borrows taken as sequences.
pub enum TokenView {
    Null,
    Boolean(bool),
    Integer(i64),
    Float(Seq<u8>),
    String(Seq<u8>),
    Array { elements: u32 },
    Object { class: Seq<u8>, properties: u32 },
    End,
    Reference(i64),
}

impl TokenView {
    /// The kind of the token.
    pub open spec fn kind(self) -> PhpTokenKind {
        match self {
            TokenView::Null => PhpTokenKind::Null,
            TokenView::Boolean(_) => PhpTokenKind::Boolean,
            TokenView::Integer(_) => PhpTokenKind::Integer,
            TokenView::Float(_) => PhpTokenKind::Float,
            TokenView::String(_) => PhpTokenKind::String,
            TokenView::Array { .. } => PhpTokenKind::Array,
            TokenView::Object { .. } => PhpTokenKind::Object,
            TokenView::End => PhpTokenKind::End,
            TokenView::Reference(_) => PhpTokenKind::Reference,
        }
    }
}

impl<'a> View for PhpToken<'a> {
    type V = TokenView;

    open spec fn view(&self) -> TokenView {
        match *self {
            PhpToken::Null => TokenView::Null,
            PhpToken::Boolean(b) => TokenView::Boolean(b),
            PhpToken::Integer(i) => TokenView::Integer(i),
            PhpToken::Float(numeral) => TokenView::Float(numeral@),
            PhpToken::String(bytes) => TokenView::String(bytes@),
            PhpToken::Array { elements } => TokenView::Array { elements },
            PhpToken::Object { class, properties } => TokenView::Object {
                class: class@,
                properties,
            },
            PhpToken::End => TokenView::End,
            PhpToken::Reference(r) => TokenView::Reference(r),
        }
    }
}

impl<'a> PhpToken<'a> {
    /// The kind of the token.
    pub fn kind(&self) -> (kind: PhpTokenKind)
        ensures
            kind == self@.kind(),
    {
        match self {
            PhpToken::Null => PhpTokenKind::Null,
            PhpToken::Boolean(_) => PhpTokenKind::Boolean,
            PhpToken::Integer(_) => PhpTokenKind::Integer,
            PhpToken::Float(_) => PhpTokenKind::Float,
            PhpToken::String(_) => PhpTokenKind::String,
            PhpToken::Array { .. } => PhpTokenKind::Array,
            PhpToken::Object { .. } => PhpTokenKind::Object,
            PhpToken::End => PhpTokenKind::End,
            PhpToken::Reference(_) => PhpTokenKind::Reference,
        }
    }
}

} // verus!
