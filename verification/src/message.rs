//! The messages of the errors, as text for a reader.

use crate::errors::{Error, ErrorKind};
use vstd::prelude::*;
use vstd::string::StringExecFns;

verus! {

/// `String::push` of std appends the character to the end of the string.
pub assume_specification[ std::string::String::push ](text: &mut std::string::String, ch: char)
    ensures
        final(text)@ == old(text)@.push(ch),
;

/// The character of a decimal digit.
pub open spec fn digit_char(digit: nat) -> char {
    (0x30 + digit) as char
}

/// The character of a hexadecimal digit, in lower case.
pub open spec fn hex_char(digit: nat) -> char {
    if digit < 10 {
        (0x30 + digit) as char
    } else {
        (0x61 + digit - 10) as char
    }
}

/// `n` in decimal.
pub open spec fn decimal_text(n: nat) -> Seq<char>
    decreases n,
{
    if n < 10 {
        seq![digit_char(n)]
    } else {
        decimal_text(n / 10).push(digit_char(n % 10))
    }
}

/// `byte` as it is shown in a message: a letter or a digit between single
/// quotes, any other byte as `0x` and its two hexadecimal digits.
pub open spec fn byte_text(byte: u8) -> Seq<char> {
    if is_alphanumeric(byte) {
        seq!['\'', byte as char, '\'']
    } else {
        "0x"@ + seq![hex_char(byte as nat / 16), hex_char(byte as nat % 16)]
    }
}

/// `byte` is an ASCII letter or digit.
pub open spec fn is_alphanumeric(byte: u8) -> bool {
    0x30 <= byte <= 0x39 || 0x41 <= byte <= 0x5A || 0x61 <= byte <= 0x7A
}

/// What is said after the reason where an offset is known.
pub open spec fn place_text(position: usize) -> Seq<char> {
    " at position: "@ + decimal_text(position as nat)
}

impl ErrorKind {
    /// The message of the kind, for a reader.
    pub open spec fn message(self) -> Seq<char> {
        match self {
            ErrorKind::Eof => "Unexpected end of data"@,
            ErrorKind::MismatchByte { expected, found, position } => "Expected byte "@ + seq![
                '\'',
                expected as char,
                '\'',
            ] + ", found "@ + byte_text(found) + place_text(position),
            ErrorKind::UnexpectedByte { found, position } => "Unexpected byte "@ + byte_text(found)
                + place_text(position),
            ErrorKind::Utf8 { position } => "UTF-8 conversion error: invalid utf-8 sequence"@
                + place_text(position),
            ErrorKind::Deserialize { message, position } => "Deserialization error: "@ + message@
                + match position {
                Some(position) => place_text(position),
                None => Seq::empty(),
            },
            ErrorKind::Empty { position } => "Unable to decode empty data"@ + place_text(position),
            ErrorKind::MissingQuotes { position } => "Missing quotes in string"@ + place_text(
                position,
            ),
            ErrorKind::StringTooLong { position } => "String is too long"@ + place_text(position),
            ErrorKind::InvalidNumber { position } => "Invalid number"@ + place_text(position),
            ErrorKind::Overflow { position } => "Overflow"@ + place_text(position),
        }
    }
}

/// Appends `n` in decimal.
fn push_decimal(text: &mut String, n: usize)
    ensures
        final(text)@ == old(text)@ + decimal_text(n as nat),
    decreases n,
{
    if n >= 10 {
        push_decimal(text, n / 10);
    }
    let digit: u8 = (n % 10) as u8;
    text.push((0x30 + digit) as char);
}

/// Appends the character of a hexadecimal digit.
fn push_hex(text: &mut String, digit: u8)
    requires
        digit < 16,
    ensures
        final(text)@ == old(text)@.push(hex_char(digit as nat)),
{
    if digit < 10 {
        text.push((0x30 + digit) as char);
    } else {
        text.push((0x61 + (digit - 10)) as char);
    }
}

/// Appends a byte as it is shown in a message.
fn push_byte(text: &mut String, byte: u8)
    ensures
        final(text)@ == old(text)@ + byte_text(byte),
{
    if (0x30 <= byte && byte <= 0x39) || (0x41 <= byte && byte <= 0x5A) || (0x61 <= byte && byte
        <= 0x7A) {
        text.push('\'');
        text.push(byte as char);
        text.push('\'');
    } else {
        text.append("0x");
        push_hex(text, byte / 16);
        push_hex(text, byte % 16);
    }
}

/// Appends what is said after the reason where an offset is known.
fn push_place(text: &mut String, position: usize)
    ensures
        final(text)@ == old(text)@ + place_text(position),
{
    text.append(" at position: ");
    push_decimal(text, position);
}

impl Error {
    /// The message of the error, for a reader.
    pub fn message(&self) -> (text: String)
        ensures
            text@ == self@.message(),
    {
        let mut text = String::new();
        match self.kind() {
            ErrorKind::Eof => {
                text.append("Unexpected end of data");
            },
            ErrorKind::MismatchByte { expected, found, position } => {
                text.append("Expected byte ");
                text.push('\'');
                text.push(*expected as char);
                text.push('\'');
                text.append(", found ");
                push_byte(&mut text, *found);
                push_place(&mut text, *position);
            },
            ErrorKind::UnexpectedByte { found, position } => {
                text.append("Unexpected byte ");
                push_byte(&mut text, *found);
                push_place(&mut text, *position);
            },
            ErrorKind::Utf8 { position } => {
                text.append("UTF-8 conversion error: invalid utf-8 sequence");
                push_place(&mut text, *position);
            },
            ErrorKind::Deserialize { message, position } => {
                text.append("Deserialization error: ");
                text.append(message.as_str());
                if let Some(position) = position {
                    push_place(&mut text, *position);
                }
            },
            ErrorKind::Empty { position } => {
                text.append("Unable to decode empty data");
                push_place(&mut text, *position);
            },
            ErrorKind::MissingQuotes { position } => {
                text.append("Missing quotes in string");
                push_place(&mut text, *position);
            },
            ErrorKind::StringTooLong { position } => {
                text.append("String is too long");
                push_place(&mut text, *position);
            },
            ErrorKind::InvalidNumber { position } => {
                text.append("Invalid number");
                push_place(&mut text, *position);
            },
            ErrorKind::Overflow { position } => {
                text.append("Overflow");
                push_place(&mut text, *position);
            },
        }
        text
    }
}

} // verus!
