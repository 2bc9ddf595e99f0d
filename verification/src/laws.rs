//! Laws of the tokenizer and of the scalar decoders, proved from the
//! grammar that the contracts are stated in.

use crate::bstr::{demangle, PhpVisibility};
use crate::bytes::{
    lemma_run, lemma_run_is, COLON, LOWER_A, LOWER_B, LOWER_I, LOWER_S, MINUS, NEWLINE, NUL, ONE,
    OPEN_BRACE, QUOTE, SEMICOLON, STAR, UPPER_N, ZERO,
};
use crate::de::{decoded, PhpShape, PhpVisit};
use crate::errors::{Error, ErrorKind};
use crate::grammar::{
    array_at, boolean_at, expect_at, float_at, integer_at, null_at, object_at, payload_at,
    properties_at, string_at, tag_kind, tag_scan, token, token_at, Step, Tag,
};
use crate::parser::ParserView;
use crate::scalar::{
    count_scan, decimal, digit_run, float_scan, integer_scan, is_digit, lemma_count_scan,
    lemma_float_scan, lemma_integer_scan, lemma_numeral_is_whole, lemma_string_scan, string_scan,
    ScalarError, MAX_COUNT_DIGITS, MAX_INTEGER_DIGITS,
};
use crate::token::{PhpTokenKind, TokenView};
use vstd::prelude::*;

verus! {

/// The state after `n` peeks in a row.
pub open spec fn peeked_times(s: ParserView, n: nat) -> ParserView
    decreases n,
{
    if n == 0 {
        s
    } else {
        peeked_times(s, (n - 1) as nat).peeked()
    }
}

/// A tag that was found ends within the bytes.
pub proof fn lemma_tag_scan(s: Seq<u8>)
    ensures
        tag_scan(s) matches Tag::Kind { kind, len } ==> 0 < len <= s.len() && tag_kind(
            s[len - 1],
        ) == Some(kind),
{
    lemma_run(s, |b: u8| b == NEWLINE);
}

/// Peeking changes neither the input nor the cursor, and leaves a state
/// that is well formed.
pub proof fn law_peek_keeps_cursor(s: ParserView)
    requires
        s.wf(),
    ensures
        s.peeked().wf(),
        s.peeked().input == s.input,
        s.peeked().position == s.position,
{
    lemma_tag_scan(s.input.skip(s.position));
}

/// Any number of peeks in a row, one at least, return what the first
/// returned and leave the state that the first left: the cursor where it
/// was.
pub proof fn law_peek_repeats(s: ParserView, n: nat)
    requires
        s.wf(),
        n >= 1,
    ensures
        peeked_times(s, n) == s.peeked(),
        peeked_times(s, (n - 1) as nat).peek() == s.peek(),
        peeked_times(s, n).position == s.position,
    decreases n,
{
    if n > 1 {
        law_peek_repeats(s, (n - 1) as nat);
    }
}

/// A peek does not change what the next pull returns, nor where it leaves
/// the cursor: the token that was looked at is the token that is taken,
/// once.
pub proof fn law_peek_then_next(s: ParserView)
    requires
        s.wf(),
    ensures
        s.peeked().next() == s.next(),
{
}

/// A value that was found to be there is decoded once: whatever shape is
/// decoded after the look that found it, the outcome is the one that the
/// same decoding would have had without the look. The wrapper of one field
/// is left out: it takes no token, and so leaves the state that it finds.
pub proof fn law_present_is_decoded_once(
    shape: PhpShape,
    s: ParserView,
    after: ParserView,
    r: Result<PhpVisit, Error>,
)
    requires
        s.wf(),
        shape != PhpShape::NewtypeStruct,
    ensures
        decoded(shape, s.peeked(), after, r) == decoded(shape, s, after, r),
{
}

/// What a peek announces is what the pull finds: the kind of the token
/// that is pulled, a clean end where nothing is pulled, and the same error
/// for a byte that is no tag. Where the pull fails within the payload, the
/// peek has announced the kind whose payload it is.
pub proof fn law_peek_announces(s: ParserView)
    requires
        s.wf(),
    ensures
        match s.next().result {
            Ok(Some(token)) => s.peek() == Ok::<Option<PhpTokenKind>, ErrorKind>(
                Some(token.kind()),
            ),
            Ok(None) => s.peek() == Ok::<Option<PhpTokenKind>, ErrorKind>(None),
            Err(kind) => s.peek() is Ok || s.peek() == Err::<Option<PhpTokenKind>, ErrorKind>(
                kind,
            ),
        },
        s.peek() is Err ==> s.next().result == Err::<Option<TokenView>, ErrorKind>(
            s.peek()->Err_0,
        ),
        s.peek() == Ok::<Option<PhpTokenKind>, ErrorKind>(None) ==> s.next().result == Ok::<
            Option<TokenView>,
            ErrorKind,
        >(None),
{
}

/// Taking what was peeked moves the cursor forward; with nothing peeked it
/// changes nothing.
pub proof fn law_consume_advances(s: ParserView)
    requires
        s.wf(),
    ensures
        s.consumed().wf(),
        s.lookahead is Some ==> s.position < s.consumed().position <= s.input.len(),
        s.lookahead is None ==> s.consumed() == s,
{
}

/// A pull never moves the cursor back nor past the end of the input, and a
/// pull that returns a token moves it forward.
pub proof fn law_pull_advances(s: ParserView)
    requires
        s.wf(),
    ensures
        s.position <= s.next().position <= s.input.len(),
        s.next().result matches Ok(Some(_)) ==> s.position < s.next().position,
        s.at(s.next().position).wf(),
{
    let input = s.input;
    let rest = input.skip(s.position);
    lemma_tag_scan(rest);
    if let Tag::Kind { kind, len } = tag_scan(rest) {
        let p = s.position + len;
        lemma_payload_bounds(input, kind, p);
    }
}

/// The payload of a token is read within the input, forward from where it
/// starts.
pub proof fn lemma_payload_bounds(input: Seq<u8>, kind: PhpTokenKind, p: int)
    requires
        0 <= p <= input.len(),
    ensures
        p <= payload_at(input, kind, p).position <= input.len(),
{
    let rest = input.skip(p + 1);
    if p < input.len() {
        lemma_integer_scan(rest);
        lemma_float_scan(rest);
        lemma_string_scan(rest);
        lemma_count_scan(rest, COLON);
        if let Ok((class, used)) = string_scan(rest) {
            let q = p + 1 + used;
            if q < input.len() {
                lemma_count_scan(input.skip(q + 1), COLON);
            }
        }
    }
}

/// The bytes of a string token are bytes of the input: those that end two
/// bytes before the token does, where its closing quote stands.
pub proof fn law_string_lies_in_input(input: Seq<u8>, p: int)
    requires
        0 <= p <= input.len(),
    ensures
        token_at(input, p).result matches Ok(Some(TokenView::String(bytes))) ==> {
            let end = token_at(input, p).position;
            &&& p + bytes.len() + 6 <= end <= input.len()
            &&& bytes == input.subrange(end - 2 - bytes.len(), end - 2)
        },
{
    let rest = input.skip(p);
    lemma_tag_scan(rest);
    if let Tag::Kind { kind, len } = tag_scan(rest) {
        let q = p + len;
        if kind == PhpTokenKind::String && q < input.len() {
            let s = input.skip(q + 1);
            lemma_string_scan(s);
            lemma_count_scan(s, COLON);
        }
    }
}

/// The numeral of a float token is bytes of the input: those that end one
/// byte before the token does. Taken alone they are a numeral still, and
/// nothing but one.
pub proof fn law_numeral_lies_in_input(input: Seq<u8>, p: int)
    requires
        0 <= p <= input.len(),
    ensures
        token_at(input, p).result matches Ok(Some(TokenView::Float(numeral))) ==> {
            let end = token_at(input, p).position;
            &&& p + numeral.len() + 3 <= end <= input.len()
            &&& numeral == input.subrange(end - 1 - numeral.len(), end - 1)
            &&& float_scan(numeral) == Ok::<(Seq<u8>, nat), ScalarError>((numeral, numeral.len()))
        },
{
    let rest = input.skip(p);
    lemma_tag_scan(rest);
    if let Tag::Kind { kind, len } = tag_scan(rest) {
        let q = p + len;
        if kind == PhpTokenKind::Float && q < input.len() {
            let s = input.skip(q + 1);
            lemma_float_scan(s);
            lemma_numeral_is_whole(s);
        }
    }
}

/// `kind` with the offset that it carries moved by `by`.
pub open spec fn shifted_kind(kind: ErrorKind, by: int) -> ErrorKind {
    match kind {
        ErrorKind::MismatchByte { expected, found, position } => ErrorKind::MismatchByte {
            expected,
            found,
            position: (position + by) as usize,
        },
        ErrorKind::UnexpectedByte { found, position } => ErrorKind::UnexpectedByte {
            found,
            position: (position + by) as usize,
        },
        ErrorKind::Empty { position } => ErrorKind::Empty { position: (position + by) as usize },
        ErrorKind::MissingQuotes { position } => ErrorKind::MissingQuotes {
            position: (position + by) as usize,
        },
        ErrorKind::StringTooLong { position } => ErrorKind::StringTooLong {
            position: (position + by) as usize,
        },
        ErrorKind::InvalidNumber { position } => ErrorKind::InvalidNumber {
            position: (position + by) as usize,
        },
        ErrorKind::Overflow { position } => ErrorKind::Overflow {
            position: (position + by) as usize,
        },
        other => other,
    }
}

/// `step` with every offset in it moved by `by`.
pub open spec fn shifted(step: Step, by: int) -> Step {
    Step {
        result: match step.result {
            Ok(pulled) => Ok(pulled),
            Err(kind) => Err(shifted_kind(kind, by)),
        },
        position: step.position + by,
    }
}

/// Requiring a byte depends on the bytes from the cursor on alone.
pub proof fn lemma_expect_is_local(input: Seq<u8>, p: int, q: int, expected: u8)
    requires
        0 <= p <= input.len() <= usize::MAX,
        0 <= q <= input.len() - p,
    ensures
        expect_at(input, p + q, expected) == match expect_at(input.skip(p), q, expected) {
            Some(kind) => Some(shifted_kind(kind, p)),
            None => None,
        },
{
}

/// A null, a boolean, an integer and a reference depend on the bytes from
/// the cursor on alone.
pub proof fn lemma_short_payload_is_local(input: Seq<u8>, p: int, q: int)
    requires
        0 <= p <= input.len() <= usize::MAX,
        0 <= q <= input.len() - p,
    ensures
        null_at(input, p + q) == shifted(null_at(input.skip(p), q), p),
        boolean_at(input, p + q) == shifted(boolean_at(input.skip(p), q), p),
        integer_at(input, p + q, false) == shifted(integer_at(input.skip(p), q, false), p),
        integer_at(input, p + q, true) == shifted(integer_at(input.skip(p), q, true), p),
{
    let rest = input.skip(p);
    lemma_expect_is_local(input, p, q, SEMICOLON);
    lemma_expect_is_local(input, p, q, COLON);
    if p + q < input.len() {
        assert(rest.skip(q + 1) =~= input.skip(p + q + 1));
        lemma_integer_scan(input.skip(p + q + 1));
        if p + q + 2 <= input.len() {
            lemma_expect_is_local(input, p, q + 2, SEMICOLON);
        }
    }
}

/// A float depends on the bytes from the cursor on alone.
#[verifier::rlimit(50)]
pub proof fn lemma_float_is_local(input: Seq<u8>, p: int, q: int)
    requires
        0 <= p <= input.len() <= usize::MAX,
        0 <= q <= input.len() - p,
    ensures
        float_at(input, p + q) == shifted(float_at(input.skip(p), q), p),
{
    let rest = input.skip(p);
    lemma_expect_is_local(input, p, q, COLON);
    if p + q < input.len() {
        let after = input.skip(p + q + 1);
        assert(rest.skip(q + 1) =~= after);
        lemma_float_scan(after);
        if let Ok((_, used)) = float_scan(after) {
            lemma_expect_is_local(input, p, q + 1 + used, SEMICOLON);
        }
    }
}

/// A string depends on the bytes from the cursor on alone.
#[verifier::rlimit(50)]
pub proof fn lemma_string_is_local(input: Seq<u8>, p: int, q: int)
    requires
        0 <= p <= input.len() <= usize::MAX,
        0 <= q <= input.len() - p,
    ensures
        string_at(input, p + q) == shifted(string_at(input.skip(p), q), p),
{
    let rest = input.skip(p);
    lemma_expect_is_local(input, p, q, COLON);
    if p + q < input.len() {
        let after = input.skip(p + q + 1);
        assert(rest.skip(q + 1) =~= after);
        lemma_string_scan(after);
        if let Ok((_, used)) = string_scan(after) {
            lemma_expect_is_local(input, p, q + 1 + used, SEMICOLON);
        }
    }
}

/// The header of an array, and what follows the class in the header of an
/// object, depend on the bytes from the cursor on alone.
pub proof fn lemma_count_payload_is_local(input: Seq<u8>, class: Seq<u8>, p: int, q: int)
    requires
        0 <= p <= input.len() <= usize::MAX,
        0 <= q <= input.len() - p,
    ensures
        array_at(input, p + q) == shifted(array_at(input.skip(p), q), p),
        properties_at(input, class, p + q) == shifted(properties_at(input.skip(p), class, q), p),
{
    let rest = input.skip(p);
    lemma_expect_is_local(input, p, q, COLON);
    if p + q < input.len() {
        let after = input.skip(p + q + 1);
        assert(rest.skip(q + 1) =~= after);
        lemma_count_scan(after, COLON);
        if let Ok((_, used)) = count_scan(after, COLON) {
            lemma_expect_is_local(input, p, q + 1 + used, OPEN_BRACE);
        }
    }
}

/// The header of an object depends on the bytes from the cursor on alone.
#[verifier::rlimit(50)]
pub proof fn lemma_object_is_local(input: Seq<u8>, p: int, q: int)
    requires
        0 <= p <= input.len() <= usize::MAX,
        0 <= q <= input.len() - p,
    ensures
        object_at(input, p + q) == shifted(object_at(input.skip(p), q), p),
{
    let rest = input.skip(p);
    lemma_expect_is_local(input, p, q, COLON);
    if p + q < input.len() {
        let after = input.skip(p + q + 1);
        assert(rest.skip(q + 1) =~= after);
        lemma_string_scan(after);
        if let Ok((class, used)) = string_scan(after) {
            lemma_count_payload_is_local(input, class, p, q + 1 + used);
        }
    }
}

/// The payload of a token depends on the bytes from the cursor on, and on
/// nothing before them.
#[verifier::rlimit(50)]
pub proof fn lemma_payload_is_local(input: Seq<u8>, p: int, kind: PhpTokenKind, q: int)
    requires
        0 <= p <= input.len() <= usize::MAX,
        0 <= q <= input.len() - p,
    ensures
        payload_at(input, kind, p + q) == shifted(payload_at(input.skip(p), kind, q), p),
{
    lemma_short_payload_is_local(input, p, q);
    lemma_float_is_local(input, p, q);
    lemma_string_is_local(input, p, q);
    lemma_count_payload_is_local(input, Seq::empty(), p, q);
    lemma_object_is_local(input, p, q);
}

/// A pull depends on the bytes from the cursor on, and on nothing else:
/// the tokenizer keeps no account of what it has read, and so none of the
/// bodies it stands in, nor of the counts that their headers declared.
pub proof fn law_pull_is_local(input: Seq<u8>, p: int)
    requires
        0 <= p <= input.len() <= usize::MAX,
    ensures
        token_at(input, p) == shifted(token_at(input.skip(p), 0), p),
{
    let rest = input.skip(p);
    assert(rest.skip(0) =~= rest);
    lemma_tag_scan(rest);
    if let Tag::Kind { kind, len } = tag_scan(rest) {
        lemma_payload_is_local(input, p, kind, len);
    }
}

/// Digits that are followed by no further digit are the digits at the
/// front.
pub proof fn lemma_digits_then(digits: Seq<u8>, tail: Seq<u8>)
    requires
        forall|i: int| 0 <= i < digits.len() ==> is_digit(#[trigger] digits[i]),
        tail.len() > 0 ==> !is_digit(tail[0]),
    ensures
        digit_run(digits + tail) == digits.len(),
        (digits + tail).take(digits.len() as int) == digits,
{
    let s = digits + tail;
    assert forall|i: int| 0 <= i < digits.len() implies is_digit(#[trigger] s[i]) by {
    }
    lemma_run_is(s, |b: u8| is_digit(b), digits.len());
}

/// A count is read back as it was written, and refused where it has more
/// digits than a count may have or denotes more than 32 bits hold.
pub proof fn law_count_reads_back(digits: Seq<u8>, delimiter: u8, rest: Seq<u8>)
    requires
        digits.len() > 0,
        forall|i: int| 0 <= i < digits.len() ==> is_digit(#[trigger] digits[i]),
        !is_digit(delimiter),
    ensures
        count_scan(digits + seq![delimiter] + rest, delimiter) == if digits.len()
            > MAX_COUNT_DIGITS || decimal(digits) > u32::MAX {
            Err::<(u32, nat), ScalarError>(ScalarError::Overflow)
        } else {
            Ok::<(u32, nat), ScalarError>((decimal(digits) as u32, digits.len() + 1))
        },
{
    let tail = seq![delimiter] + rest;
    assert(digits + seq![delimiter] + rest =~= digits + tail);
    lemma_digits_then(digits, tail);
}

/// A string is taken by its declared length, whatever bytes it holds: its
/// payload may hold quotes, semicolons and bytes that are no text.
pub proof fn law_string_is_binary_safe(length: Seq<u8>, bytes: Seq<u8>, rest: Seq<u8>)
    requires
        0 < length.len() <= MAX_COUNT_DIGITS,
        forall|i: int| 0 <= i < length.len() ==> is_digit(#[trigger] length[i]),
        decimal(length) == bytes.len(),
        bytes.len() <= u32::MAX,
    ensures
        string_scan(length + seq![COLON, QUOTE] + bytes + seq![QUOTE] + rest)
            == Ok::<(Seq<u8>, nat), ScalarError>(
            (bytes, length.len() + bytes.len() + 3),
        ),
{
    let s = length + seq![COLON, QUOTE] + bytes + seq![QUOTE] + rest;
    let after = seq![QUOTE] + bytes + seq![QUOTE] + rest;
    assert(s =~= length + seq![COLON] + after);
    law_count_reads_back(length, COLON, after);
    let used = length.len() + 1;
    assert(s.skip(used as int) =~= after);
    assert(after.subrange(1, bytes.len() as int + 1) =~= bytes);
}

/// A tag byte at the very front is the tag that is found.
pub proof fn lemma_tag_at_front(input: Seq<u8>, kind: PhpTokenKind)
    requires
        input.len() > 0,
        tag_kind(input[0]) == Some(kind),
    ensures
        tag_scan(input.skip(0)) == (Tag::Kind { kind, len: 1 }),
{
    lemma_run_is(input, |b: u8| b == NEWLINE, 0);
}

/// A null is the two bytes `N;`, whatever follows them.
pub proof fn law_null_reads_back(rest: Seq<u8>)
    ensures
        token_at(seq![UPPER_N, SEMICOLON] + rest, 0) == token(TokenView::Null, 2),
{
    let input = seq![UPPER_N, SEMICOLON] + rest;
    lemma_tag_at_front(input, PhpTokenKind::Null);
}

/// A boolean is read back as it was written, whatever follows it.
pub proof fn law_boolean_reads_back(value: bool, rest: Seq<u8>)
    ensures
        token_at(
            seq![
                LOWER_B,
                COLON,
                if value {
                    ONE
                } else {
                    ZERO
                },
                SEMICOLON,
            ] + rest,
            0,
        ) == token(TokenView::Boolean(value), 4),
{
    let digit = if value {
        ONE
    } else {
        ZERO
    };
    let input = seq![LOWER_B, COLON, digit, SEMICOLON] + rest;
    lemma_tag_at_front(input, PhpTokenKind::Boolean);
}

/// The bytes of an integer: its sign, if it is negative, and its digits.
pub open spec fn integer_bytes(negative: bool, digits: Seq<u8>) -> Seq<u8> {
    if negative {
        seq![MINUS] + digits
    } else {
        digits
    }
}

/// The integer that a sign and digits denote.
pub open spec fn integer_value(negative: bool, digits: Seq<u8>) -> int {
    if negative {
        -decimal(digits)
    } else {
        decimal(digits) as int
    }
}

/// An integer is read back as it was written, and refused where it has
/// more digits than an integer may have or lies outside the 64 bits of a
/// signed integer. The least integer, whose magnitude no signed integer
/// holds, is read like every other.
pub proof fn law_integer_reads_back(negative: bool, digits: Seq<u8>, rest: Seq<u8>)
    requires
        digits.len() > 0,
        forall|i: int| 0 <= i < digits.len() ==> is_digit(#[trigger] digits[i]),
    ensures
        integer_scan(integer_bytes(negative, digits) + seq![SEMICOLON] + rest) == if digits.len()
            > MAX_INTEGER_DIGITS || integer_value(negative, digits) < i64::MIN || integer_value(
            negative,
            digits,
        ) > i64::MAX {
            Err::<(i64, nat), ScalarError>(ScalarError::Overflow)
        } else {
            Ok::<(i64, nat), ScalarError>(
                (
                    integer_value(negative, digits) as i64,
                    integer_bytes(negative, digits).len() + 1,
                ),
            )
        },
{
    let s = integer_bytes(negative, digits) + seq![SEMICOLON] + rest;
    let tail = seq![SEMICOLON] + rest;
    let sign: int = if negative {
        1
    } else {
        0
    };
    let body = s.skip(sign);
    assert(body =~= digits + tail);
    lemma_digits_then(digits, tail);
}

/// The payload of an integer is read as it stands.
proof fn lemma_integer_payload(input: Seq<u8>, negative: bool, digits: Seq<u8>, rest: Seq<u8>)
    requires
        0 < digits.len() <= MAX_INTEGER_DIGITS,
        forall|i: int| 0 <= i < digits.len() ==> is_digit(#[trigger] digits[i]),
        i64::MIN <= integer_value(negative, digits) <= i64::MAX,
        input.len() >= 2,
        input[1] == COLON,
        input.skip(2) == integer_bytes(negative, digits) + seq![SEMICOLON] + rest,
    ensures
        integer_at(input, 1, false) == token(
            TokenView::Integer(integer_value(negative, digits) as i64),
            integer_bytes(negative, digits).len() as int + 3,
        ),
{
    law_integer_reads_back(negative, digits, rest);
}

/// An integer within the 64 bits of a signed integer, written with no
/// more digits than an integer may have, is read back as it was written,
/// and the cursor moves by the length of what was written.
#[verifier::rlimit(50)]
pub proof fn law_integer_token_reads_back(negative: bool, digits: Seq<u8>, rest: Seq<u8>)
    requires
        0 < digits.len() <= MAX_INTEGER_DIGITS,
        forall|i: int| 0 <= i < digits.len() ==> is_digit(#[trigger] digits[i]),
        i64::MIN <= integer_value(negative, digits) <= i64::MAX,
    ensures
        token_at(
            seq![LOWER_I, COLON] + integer_bytes(negative, digits) + seq![SEMICOLON] + rest,
            0,
        ) == token(
            TokenView::Integer(integer_value(negative, digits) as i64),
            integer_bytes(negative, digits).len() as int + 3,
        ),
{
    let written = integer_bytes(negative, digits) + seq![SEMICOLON] + rest;
    let input = seq![LOWER_I, COLON] + integer_bytes(negative, digits) + seq![SEMICOLON] + rest;
    assert(input.skip(2) =~= written);
    lemma_tag_at_front(input, PhpTokenKind::Integer);
    lemma_integer_payload(input, negative, digits, rest);
}

/// A string is read back as it was written, whatever bytes it holds and
/// whatever follows it, and the cursor moves by the length of what was
/// written: its payload and the bytes that frame it.
#[verifier::rlimit(50)]
pub proof fn law_string_token_reads_back(length: Seq<u8>, bytes: Seq<u8>, rest: Seq<u8>)
    requires
        0 < length.len() <= MAX_COUNT_DIGITS,
        forall|i: int| 0 <= i < length.len() ==> is_digit(#[trigger] length[i]),
        decimal(length) == bytes.len(),
        bytes.len() <= u32::MAX,
    ensures
        token_at(
            seq![LOWER_S, COLON] + length + seq![COLON, QUOTE] + bytes + seq![QUOTE, SEMICOLON]
                + rest,
            0,
        ) == token(TokenView::String(bytes), (length.len() + bytes.len() + 6) as int),
{
    let input = seq![LOWER_S, COLON] + length + seq![COLON, QUOTE] + bytes + seq![
        QUOTE,
        SEMICOLON,
    ] + rest;
    let tail = seq![SEMICOLON] + rest;
    lemma_tag_at_front(input, PhpTokenKind::String);
    assert(input.skip(2) =~= length + seq![COLON, QUOTE] + bytes + seq![QUOTE] + tail);
    law_string_is_binary_safe(length, bytes, tail);
}

/// An array header at the front of the input, as the bytes it is made of.
pub open spec fn array_header(count: Seq<u8>) -> Seq<u8> {
    seq![LOWER_A, COLON] + count + seq![COLON, OPEN_BRACE]
}

/// The payload of an array header is read as it stands.
proof fn lemma_array_payload(input: Seq<u8>, count: Seq<u8>, body: Seq<u8>)
    requires
        0 < count.len() <= MAX_COUNT_DIGITS,
        forall|i: int| 0 <= i < count.len() ==> is_digit(#[trigger] count[i]),
        decimal(count) <= u32::MAX,
        input == array_header(count) + body,
    ensures
        array_at(input, 1) == token(
            TokenView::Array { elements: decimal(count) as u32 },
            count.len() as int + 4,
        ),
{
    let tail = seq![OPEN_BRACE] + body;
    assert(input.skip(2) =~= count + seq![COLON] + tail);
    law_count_reads_back(count, COLON, tail);
}

/// The header of an array is read as it stands, whatever its body holds,
/// and the pull that follows reads the body as if no header had been
/// there: the count that was declared is handed on and held to nothing.
#[verifier::rlimit(50)]
pub proof fn law_count_is_advisory(count: Seq<u8>, body: Seq<u8>)
    requires
        0 < count.len() <= MAX_COUNT_DIGITS,
        forall|i: int| 0 <= i < count.len() ==> is_digit(#[trigger] count[i]),
        decimal(count) <= u32::MAX,
        count.len() + body.len() + 4 <= usize::MAX,
    ensures
        ({
            let input = array_header(count) + body;
            let end = count.len() + 4;
            &&& token_at(input, 0) == token(
                TokenView::Array { elements: decimal(count) as u32 },
                end as int,
            )
            &&& token_at(input, end as int) == shifted(token_at(body, 0), end as int)
        }),
{
    let input = array_header(count) + body;
    let end = count.len() + 4;
    lemma_tag_at_front(input, PhpTokenKind::Array);
    lemma_array_payload(input, count, body);
    assert(input.skip(end as int) =~= body);
    law_pull_is_local(input, end as int);
}

/// A name that does not start with a NUL is public, and taken whole.
pub proof fn law_plain_name_is_public(name: Seq<u8>)
    requires
        name.len() == 0 || name[0] != NUL,
    ensures
        demangle(name) == (name, PhpVisibility::Public),
{
}

/// `\0*\0` before a name marks it protected.
pub proof fn law_star_marks_protected(name: Seq<u8>)
    ensures
        demangle(seq![NUL, STAR, NUL] + name) == (name, PhpVisibility::Protected),
{
}

/// `\0`, a class and `\0` before a name mark it private. The class holds
/// no NUL and is not `*`; it need not be text.
pub proof fn law_class_marks_private(class: Seq<u8>, name: Seq<u8>)
    requires
        forall|i: int| 0 <= i < class.len() ==> #[trigger] class[i] != NUL,
        class != seq![STAR],
    ensures
        demangle(seq![NUL] + class + seq![NUL] + name) == (name, PhpVisibility::Private),
{
    let s = seq![NUL] + class + seq![NUL] + name;
    let tail = s.skip(1);
    let keep = |b: u8| b != NUL;
    assert forall|i: int| 0 <= i < class.len() implies keep(#[trigger] tail[i]) by {
    }
    lemma_run_is(tail, keep, class.len());
    if class.len() == 1 && s[1] == STAR {
        assert(class =~= seq![STAR]);
    }
}

/// A leading NUL with no second one leaves the name public and whole.
pub proof fn law_lone_nul_is_public(s: Seq<u8>)
    requires
        s.len() >= 1,
        s[0] == NUL,
        forall|i: int| 1 <= i < s.len() ==> #[trigger] s[i] != NUL,
    ensures
        demangle(s) == (s, PhpVisibility::Public),
{
    let tail = s.skip(1);
    let keep = |b: u8| b != NUL;
    assert forall|i: int| 0 <= i < tail.len() implies keep(#[trigger] tail[i]) by {
    }
    lemma_run_is(tail, keep, tail.len());
}

} // verus!
