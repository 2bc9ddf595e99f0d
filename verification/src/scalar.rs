//! The scalar decoders: counts, signed integers, quoted strings and float
//! numerals, each read from the front of a byte slice. Every reader returns
//! what it read together with the bytes that follow it.

use crate::bstr::PhpBstr;
use crate::bytes::{
    lemma_run, lemma_run_is, run, COLON, DOT, LOWER_A, LOWER_E, LOWER_F, LOWER_I, LOWER_N,
    LOWER_T, LOWER_Y, MINUS, NINE, PLUS, QUOTE, SEMICOLON, ZERO,
};
use vstd::prelude::*;
use vstd::slice::slice_subrange;

verus! {

/// Why a scalar could not be read. The offset is added by the tokenizer.
#[derive(Debug, PartialEq, Clone, Copy, Eq, Hash, Structural)]
pub enum ScalarError {
    StringTooLong,
    MissingQuotes,
    Empty,
    Overflow,
    Invalid,
    Eof,
}

/// The most digits that a count may have.
pub const MAX_COUNT_DIGITS: usize = 10;

/// The most digits that an integer may have, its sign not counted.
pub const MAX_INTEGER_DIGITS: usize = 19;

/// `byte` is an ASCII decimal digit.
pub open spec fn is_digit(byte: u8) -> bool {
    ZERO <= byte <= NINE
}

/// `byte` is a sign.
pub open spec fn is_sign(byte: u8) -> bool {
    byte == PLUS || byte == MINUS
}

/// `byte` is the letter whose lower case is `lower`, in either case.
pub open spec fn is_letter(byte: u8, lower: u8) -> bool {
    byte == lower || byte == lower - 0x20
}

/// The number of digits at the front of `s`.
pub open spec fn digit_run(s: Seq<u8>) -> nat {
    run(s, |b: u8| is_digit(b))
}

/// The number that the digits `s` denote in base ten.
pub open spec fn decimal(s: Seq<u8>) -> nat
    decreases s.len(),
{
    if s.len() == 0 {
        0
    } else {
        10 * decimal(s.drop_last()) + (s.last() - ZERO) as nat
    }
}

/// A count: a run of digits closed by `delimiter`. Read are the count and
/// the number of bytes taken, the delimiter among them. The digits are read
/// first, so a delimiter is looked for only where they end.
pub open spec fn count_scan(s: Seq<u8>, delimiter: u8) -> Result<(u32, nat), ScalarError> {
    let n = digit_run(s);
    let value = decimal(s.take(n as int));
    if n == s.len() {
        Err(ScalarError::Eof)
    } else if s[n as int] != delimiter {
        Err(ScalarError::Invalid)
    } else if n == 0 {
        Err(ScalarError::Empty)
    } else if n > MAX_COUNT_DIGITS || value > u32::MAX {
        Err(ScalarError::Overflow)
    } else {
        Ok((value as u32, n + 1))
    }
}

/// A signed integer: an optional `-`, a run of digits, and `;`. Read are the
/// integer and the number of bytes taken, the `;` among them.
///
/// Integers have 64 bits, as PHP writes them on its 64-bit builds, and no
/// narrower width anywhere.
pub open spec fn integer_scan(s: Seq<u8>) -> Result<(i64, nat), ScalarError> {
    if s.len() == 0 {
        Err(ScalarError::Empty)
    } else {
        let sign: int = if s[0] == MINUS {
            1
        } else {
            0
        };
        let body = s.skip(sign);
        let n = digit_run(body);
        let magnitude = decimal(body.take(n as int));
        let value = if sign == 1 {
            -magnitude
        } else {
            magnitude as int
        };
        if n == body.len() {
            Err(ScalarError::Eof)
        } else if body[n as int] != SEMICOLON {
            Err(ScalarError::Invalid)
        } else if n == 0 {
            Err(ScalarError::Empty)
        } else if n > MAX_INTEGER_DIGITS || value < i64::MIN || value > i64::MAX {
            Err(ScalarError::Overflow)
        } else {
            Ok((value as i64, (sign + n + 1) as nat))
        }
    }
}

/// A quoted string: its length in bytes as a count closed by `:`, then that
/// many bytes between double quotes. Read are the bytes between the quotes
/// and the number of bytes taken, both quotes among them.
pub open spec fn string_scan(s: Seq<u8>) -> Result<(Seq<u8>, nat), ScalarError> {
    match count_scan(s, COLON) {
        Err(e) => Err(e),
        Ok((len, used)) => {
            let rest = s.skip(used as int);
            if rest.len() < len + 2 {
                Err(ScalarError::StringTooLong)
            } else if rest[0] != QUOTE || rest[len + 1] != QUOTE {
                Err(ScalarError::MissingQuotes)
            } else {
                Ok((rest.subrange(1, len + 1), (used + len + 2) as nat))
            }
        },
    }
}

/// The length of the exponent that starts at `from`: `e` or `E`, an optional
/// sign, and at least one digit. Where there is none, the length is zero.
pub open spec fn exponent_len(s: Seq<u8>, from: int) -> nat {
    if 0 <= from < s.len() && is_letter(s[from], LOWER_E) {
        let sign: int = if from + 1 < s.len() && is_sign(s[from + 1]) {
            1
        } else {
            0
        };
        let digits = digit_run(s.skip(from + 1 + sign));
        if digits > 0 {
            (1 + sign + digits) as nat
        } else {
            0
        }
    } else {
        0
    }
}

/// The length of the decimal numeral at the front of `s`: an optional sign,
/// digits with at most one `.` among them, and an optional exponent. At
/// least one digit has to stand before the exponent.
pub open spec fn decimal_len(s: Seq<u8>) -> Option<nat> {
    let sign: int = if 0 < s.len() && is_sign(s[0]) {
        1
    } else {
        0
    };
    let whole = digit_run(s.skip(sign));
    let dot: int = if sign + whole < s.len() && s[sign + whole] == DOT {
        1
    } else {
        0
    };
    let fraction = if dot == 1 {
        digit_run(s.skip(sign + whole + 1))
    } else {
        0
    };
    if whole + fraction == 0 {
        None
    } else {
        let mantissa = sign + whole + dot + fraction;
        Some((mantissa + exponent_len(s, mantissa)) as nat)
    }
}

/// `nan`, in either case, stands at `at`.
pub open spec fn spells_nan(s: Seq<u8>, at: int) -> bool {
    &&& 0 <= at && at + 3 <= s.len()
    &&& is_letter(s[at], LOWER_N)
    &&& is_letter(s[at + 1], LOWER_A)
    &&& is_letter(s[at + 2], LOWER_N)
}

/// `inf`, in either case, stands at `at`.
pub open spec fn spells_inf(s: Seq<u8>, at: int) -> bool {
    &&& 0 <= at && at + 3 <= s.len()
    &&& is_letter(s[at], LOWER_I)
    &&& is_letter(s[at + 1], LOWER_N)
    &&& is_letter(s[at + 2], LOWER_F)
}

/// `inity`, in either case, stands at `at`.
pub open spec fn spells_inity(s: Seq<u8>, at: int) -> bool {
    &&& 0 <= at && at + 5 <= s.len()
    &&& is_letter(s[at], LOWER_I)
    &&& is_letter(s[at + 1], LOWER_N)
    &&& is_letter(s[at + 2], LOWER_I)
    &&& is_letter(s[at + 3], LOWER_T)
    &&& is_letter(s[at + 4], LOWER_Y)
}

/// The length of the special numeral at the front of `s`: an optional sign
/// and one of `nan`, `inf` and `infinity`, in either case.
pub open spec fn special_len(s: Seq<u8>) -> Option<nat> {
    let sign: int = if 0 < s.len() && is_sign(s[0]) {
        1
    } else {
        0
    };
    if spells_nan(s, sign) {
        Some((sign + 3) as nat)
    } else if spells_inf(s, sign) {
        if spells_inity(s, sign + 3) {
            Some((sign + 8) as nat)
        } else {
            Some((sign + 3) as nat)
        }
    } else {
        None
    }
}

/// The length of the float numeral at the front of `s`: the decimal numeral
/// if there is one, else the special one. These are the numerals that
/// `fast_float2` converts, so that a numeral that was read here can be
/// converted whole.
pub open spec fn numeral_len(s: Seq<u8>) -> Option<nat> {
    match decimal_len(s) {
        Some(n) => Some(n),
        None => special_len(s),
    }
}

/// A float numeral. Read are its bytes and their number.
pub open spec fn float_scan(s: Seq<u8>) -> Result<(Seq<u8>, nat), ScalarError> {
    match numeral_len(s) {
        Some(n) => Ok((s.take(n as int), n)),
        None => Err(ScalarError::Invalid),
    }
}

/// The digits at the front lie within the sequence, and the byte that
/// follows them, if there is one, is no digit.
pub proof fn lemma_digit_run(s: Seq<u8>)
    ensures
        digit_run(s) <= s.len(),
        forall|i: int| 0 <= i < digit_run(s) ==> is_digit(#[trigger] s[i]),
        digit_run(s) < s.len() ==> !is_digit(s[digit_run(s) as int]),
{
    lemma_run(s, |b: u8| is_digit(b));
}

/// One more digit multiplies by ten and adds the digit.
pub proof fn lemma_decimal_step(s: Seq<u8>, i: int)
    requires
        0 <= i < s.len(),
    ensures
        decimal(s.take(i + 1)) == 10 * decimal(s.take(i)) + (s[i] - ZERO) as nat,
{
    assert(s.take(i + 1).drop_last() =~= s.take(i));
}

/// A numeral ends within the sequence.
pub proof fn lemma_numeral_len(s: Seq<u8>)
    ensures
        numeral_len(s) matches Some(n) ==> 0 < n <= s.len(),
{
    let sign: int = if 0 < s.len() && is_sign(s[0]) {
        1
    } else {
        0
    };
    let digit = |b: u8| is_digit(b);
    lemma_run(s.skip(sign), digit);
    let whole = digit_run(s.skip(sign));
    if sign + whole < s.len() {
        lemma_run(s.skip(sign + whole + 1), digit);
    }
    if let Some(n) = decimal_len(s) {
        let dot: int = if sign + whole < s.len() && s[sign + whole] == DOT {
            1
        } else {
            0
        };
        let fraction = if dot == 1 {
            digit_run(s.skip(sign + whole + 1))
        } else {
            0
        };
        let m = sign + whole + dot + fraction;
        if m < s.len() && is_letter(s[m as int], LOWER_E) {
            let esign: int = if m + 1 < s.len() && is_sign(s[m + 1]) {
                1
            } else {
                0
            };
            lemma_run(s.skip(m + 1 + esign), digit);
        }
    }
}

/// Digits that end within a prefix of the sequence are the digits of the
/// prefix.
pub proof fn lemma_digit_run_in_prefix(s: Seq<u8>, n: int, k: int)
    requires
        0 <= k <= n <= s.len(),
        k + digit_run(s.skip(k)) <= n,
    ensures
        digit_run(s.take(n).skip(k)) == digit_run(s.skip(k)),
{
    let whole = s.skip(k);
    let part = s.take(n).skip(k);
    let r = digit_run(whole);
    lemma_digit_run(whole);
    assert forall|i: int| 0 <= i < r implies is_digit(#[trigger] part[i]) by {
        assert(part[i] == whole[i]);
    }
    lemma_run_is(part, |b: u8| is_digit(b), r);
}

/// An exponent that ends within a prefix of the sequence is the exponent
/// of the prefix.
pub proof fn lemma_exponent_in_prefix(s: Seq<u8>, n: int, from: int)
    requires
        0 <= from <= n <= s.len(),
        from + exponent_len(s, from) == n,
    ensures
        exponent_len(s.take(n), from) == exponent_len(s, from),
{
    if from < s.len() && is_letter(s[from], LOWER_E) {
        let sign: int = if from + 1 < s.len() && is_sign(s[from + 1]) {
            1
        } else {
            0
        };
        lemma_digit_run(s.skip(from + 1 + sign));
        if digit_run(s.skip(from + 1 + sign)) > 0 {
            lemma_digit_run_in_prefix(s, n, from + 1 + sign);
        }
    }
}

/// A decimal numeral that was read is, taken alone, the same numeral.
pub proof fn lemma_decimal_is_whole(s: Seq<u8>)
    ensures
        decimal_len(s) matches Some(n) ==> n <= s.len() && decimal_len(s.take(n as int)) == Some(
            n,
        ),
{
    lemma_numeral_len(s);
    if let Some(n) = decimal_len(s) {
        let sign: int = if 0 < s.len() && is_sign(s[0]) {
            1
        } else {
            0
        };
        lemma_digit_run(s.skip(sign));
        let whole = digit_run(s.skip(sign));
        let dot: int = if sign + whole < s.len() && s[sign + whole] == DOT {
            1
        } else {
            0
        };
        if dot == 1 {
            lemma_digit_run(s.skip(sign + whole + 1));
        }
        let fraction = if dot == 1 {
            digit_run(s.skip(sign + whole + 1))
        } else {
            0
        };
        let mantissa = sign + whole + dot + fraction;
        lemma_digit_run_in_prefix(s, n as int, sign);
        if dot == 1 {
            lemma_digit_run_in_prefix(s, n as int, sign + whole + 1);
        }
        lemma_exponent_in_prefix(s, n as int, mantissa);
    }
}

/// A float numeral that was read is, taken alone, the same numeral: what
/// follows a numeral has no part in it.
pub proof fn lemma_numeral_is_whole(s: Seq<u8>)
    ensures
        float_scan(s) matches Ok((numeral, n)) ==> float_scan(numeral) == Ok::<
            (Seq<u8>, nat),
            ScalarError,
        >((numeral, n)),
{
    lemma_numeral_len(s);
    lemma_decimal_is_whole(s);
    if let Some(n) = numeral_len(s) {
        let part = s.take(n as int);
        assert(part.take(n as int) =~= part);
        if decimal_len(s) is None {
            let sign: int = if 0 < s.len() && is_sign(s[0]) {
                1
            } else {
                0
            };
            lemma_run_is(part.skip(sign), |b: u8| is_digit(b), 0);
        }
    }
}

/// A count that was read ends within the sequence.
pub proof fn lemma_count_scan(s: Seq<u8>, delimiter: u8)
    ensures
        count_scan(s, delimiter) matches Ok((_, used)) ==> 1 < used <= s.len(),
{
    lemma_digit_run(s);
}

/// An integer that was read ends within the sequence.
pub proof fn lemma_integer_scan(s: Seq<u8>)
    ensures
        integer_scan(s) matches Ok((_, used)) ==> 1 < used <= s.len(),
{
    if s.len() > 0 {
        lemma_digit_run(
            s.skip(
                if s[0] == MINUS {
                    1
                } else {
                    0
                },
            ),
        );
    }
}

/// A string that was read ends within the sequence.
pub proof fn lemma_string_scan(s: Seq<u8>)
    ensures
        string_scan(s) matches Ok((bytes, used)) ==> bytes.len() + 3 < used <= s.len(),
{
    lemma_count_scan(s, COLON);
}

/// A float numeral that was read ends within the sequence.
pub proof fn lemma_float_scan(s: Seq<u8>)
    ensures
        float_scan(s) matches Ok((bytes, used)) ==> 0 < used <= s.len() && bytes.len() == used,
{
    lemma_numeral_len(s);
}

/// Whether `byte` is an ASCII decimal digit.
pub fn is_ascii_digit(byte: u8) -> (r: bool)
    ensures
        r == is_digit(byte),
{
    ZERO <= byte && byte <= NINE
}

/// Counts the digits that stand at `from`.
fn count_digits(data: &[u8], from: usize) -> (n: usize)
    requires
        from <= data@.len(),
    ensures
        n == digit_run(data@.skip(from as int)),
        from + n <= data@.len(),
{
    let len = data.len();
    let mut i: usize = from;
    while i < len && is_ascii_digit(data[i])
        invariant
            from <= i <= len,
            len == data@.len(),
            forall|j: int| 0 <= j < i - from ==> is_digit(#[trigger] data@.skip(from as int)[j]),
        decreases len - i,
    {
        i += 1;
    }
    proof {
        lemma_run_is(data@.skip(from as int), |b: u8| is_digit(b), (i - from) as nat);
    }
    i - from
}

/// Reads the digits at the front of `data`: their number, and the value they
/// denote where it fits the accumulator.
fn scan_digits(data: &[u8]) -> (r: (Option<u64>, usize))
    ensures
        r.1 == digit_run(data@),
        r.1 <= data@.len(),
        match r.0 {
            Some(value) => value == decimal(data@.take(r.1 as int)),
            None => decimal(data@.take(r.1 as int)) > u64::MAX,
        },
{
    let len = data.len();
    let mut value: Option<u64> = Some(0);
    let mut i: usize = 0;
    while i < len && is_ascii_digit(data[i])
        invariant
            i <= len,
            len == data@.len(),
            forall|j: int| 0 <= j < i ==> is_digit(#[trigger] data@[j]),
            match value {
                Some(v) => v == decimal(data@.take(i as int)),
                None => decimal(data@.take(i as int)) > u64::MAX,
            },
        decreases len - i,
    {
        let digit: u64 = (data[i] - ZERO) as u64;
        proof {
            lemma_decimal_step(data@, i as int);
        }
        value = match value {
            Some(v) => match v.checked_mul(10) {
                Some(tens) => tens.checked_add(digit),
                None => None,
            },
            None => None,
        };
        i += 1;
    }
    proof {
        lemma_run_is(data@, |b: u8| is_digit(b), i as nat);
    }
    (value, i)
}

/// Reads a count closed by `delimiter`.
pub fn read_u32<'a>(data: &'a [u8], delimiter: u8) -> (r: Result<(u32, &'a [u8]), ScalarError>)
    ensures
        match count_scan(data@, delimiter) {
            Ok((value, used)) => r matches Ok((v, rest)) && v == value && rest@ == data@.skip(
                used as int,
            ),
            Err(e) => r matches Err(f) && f == e,
        },
{
    let (value, n) = scan_digits(data);
    if n == data.len() {
        return Err(ScalarError::Eof);
    }
    if data[n] != delimiter {
        return Err(ScalarError::Invalid);
    }
    if n == 0 {
        return Err(ScalarError::Empty);
    }
    if n > MAX_COUNT_DIGITS {
        return Err(ScalarError::Overflow);
    }
    match value {
        Some(v) if v <= u32::MAX as u64 => Ok((v as u32, slice_subrange(data, n + 1, data.len()))),
        _ => Err(ScalarError::Overflow),
    }
}

/// Reads a signed integer closed by `;`.
pub fn to_i64<'a>(data: &'a [u8]) -> (r: Result<(i64, &'a [u8]), ScalarError>)
    ensures
        match integer_scan(data@) {
            Ok((value, used)) => r matches Ok((v, rest)) && v == value && rest@ == data@.skip(
                used as int,
            ),
            Err(e) => r matches Err(f) && f == e,
        },
{
    let len = data.len();
    if len == 0 {
        return Err(ScalarError::Empty);
    }
    let negative = data[0] == MINUS;
    let body = if negative {
        slice_subrange(data, 1, len)
    } else {
        slice_subrange(data, 0, len)
    };
    let (magnitude, n) = scan_digits(body);
    if n == body.len() {
        return Err(ScalarError::Eof);
    }
    if body[n] != SEMICOLON {
        return Err(ScalarError::Invalid);
    }
    if n == 0 {
        return Err(ScalarError::Empty);
    }
    if n > MAX_INTEGER_DIGITS {
        return Err(ScalarError::Overflow);
    }
    let value: i64 = match magnitude {
        None => {
            return Err(ScalarError::Overflow);
        },
        Some(m) => {
            if negative {
                if m > 0x8000_0000_0000_0000 {
                    return Err(ScalarError::Overflow);
                } else if m == 0x8000_0000_0000_0000 {
                    i64::MIN
                } else {
                    -(m as i64)
                }
            } else {
                if m > 0x7FFF_FFFF_FFFF_FFFF {
                    return Err(ScalarError::Overflow);
                } else {
                    m as i64
                }
            }
        },
    };
    let rest = slice_subrange(body, n + 1, body.len());
    Ok((value, rest))
}

/// Reads a quoted string with its length in front.
pub fn read_str<'a>(data: &'a [u8]) -> (r: Result<(PhpBstr<'a>, &'a [u8]), ScalarError>)
    ensures
        match string_scan(data@) {
            Ok((bytes, used)) => r matches Ok((b, rest)) && b@ == bytes && rest@ == data@.skip(
                used as int,
            ),
            Err(e) => r matches Err(f) && f == e,
        },
{
    let (len, rest) = match read_u32(data, COLON) {
        Ok(read) => read,
        Err(e) => {
            return Err(e);
        },
    };
    let len = len as usize;
    proof {
        lemma_digit_run(data@);
    }
    if rest.len() < 2 || rest.len() - 2 < len {
        return Err(ScalarError::StringTooLong);
    }
    if rest[0] != QUOTE || rest[len + 1] != QUOTE {
        return Err(ScalarError::MissingQuotes);
    }
    let contents = slice_subrange(rest, 1, len + 1);
    let after = slice_subrange(rest, len + 2, rest.len());
    Ok((PhpBstr::new(contents), after))
}

/// Whether `byte` is the letter whose lower case is `lower`.
fn is_ascii_letter(byte: u8, lower: u8) -> (r: bool)
    requires
        lower >= 0x20,
    ensures
        r == is_letter(byte, lower),
{
    byte == lower || byte == lower - 0x20
}

/// Whether `byte` is a sign.
fn is_ascii_sign(byte: u8) -> (r: bool)
    ensures
        r == is_sign(byte),
{
    byte == PLUS || byte == MINUS
}

/// Measures the exponent that starts at `from`.
fn measure_exponent(data: &[u8], from: usize) -> (n: usize)
    requires
        from <= data@.len(),
    ensures
        n == exponent_len(data@, from as int),
        from + n <= data@.len(),
{
    let len = data.len();
    if from < len && is_ascii_letter(data[from], LOWER_E) {
        let sign: usize = if from + 1 < len && is_ascii_sign(data[from + 1]) {
            1
        } else {
            0
        };
        let digits = count_digits(data, from + 1 + sign);
        if digits > 0 {
            1 + sign + digits
        } else {
            0
        }
    } else {
        0
    }
}

/// Measures the decimal numeral at the front of `data`.
fn measure_decimal(data: &[u8]) -> (r: Option<usize>)
    ensures
        match decimal_len(data@) {
            Some(n) => r == Some(n as usize) && n <= data@.len(),
            None => r is None,
        },
{
    let len = data.len();
    let sign: usize = if 0 < len && is_ascii_sign(data[0]) {
        1
    } else {
        0
    };
    let whole = count_digits(data, sign);
    let mut mantissa = sign + whole;
    let mut fraction: usize = 0;
    if mantissa < len && data[mantissa] == DOT {
        fraction = count_digits(data, mantissa + 1);
        mantissa = mantissa + 1 + fraction;
    }
    if whole + fraction == 0 {
        return None;
    }
    let exponent = measure_exponent(data, mantissa);
    Some(mantissa + exponent)
}

/// Measures the special numeral at the front of `data`.
fn measure_special(data: &[u8]) -> (r: Option<usize>)
    ensures
        match special_len(data@) {
            Some(n) => r == Some(n as usize) && n <= data@.len(),
            None => r is None,
        },
{
    let len = data.len();
    let sign: usize = if 0 < len && is_ascii_sign(data[0]) {
        1
    } else {
        0
    };
    if len - sign < 3 {
        return None;
    }
    if is_ascii_letter(data[sign], LOWER_N) && is_ascii_letter(data[sign + 1], LOWER_A)
        && is_ascii_letter(data[sign + 2], LOWER_N) {
        return Some(sign + 3);
    }
    if is_ascii_letter(data[sign], LOWER_I) && is_ascii_letter(data[sign + 1], LOWER_N)
        && is_ascii_letter(data[sign + 2], LOWER_F) {
        if len - sign >= 8 && is_ascii_letter(data[sign + 3], LOWER_I) && is_ascii_letter(
            data[sign + 4],
            LOWER_N,
        ) && is_ascii_letter(data[sign + 5], LOWER_I) && is_ascii_letter(data[sign + 6], LOWER_T)
            && is_ascii_letter(data[sign + 7], LOWER_Y) {
            return Some(sign + 8);
        }
        return Some(sign + 3);
    }
    None
}

/// Reads a float numeral. Its value is left to whoever holds the bytes.
pub fn read_float<'a>(data: &'a [u8]) -> (r: Result<(PhpBstr<'a>, &'a [u8]), ScalarError>)
    ensures
        match float_scan(data@) {
            Ok((bytes, used)) => r matches Ok((b, rest)) && b@ == bytes && rest@ == data@.skip(
                used as int,
            ),
            Err(e) => r matches Err(f) && f == e,
        },
{
    let n = match measure_decimal(data) {
        Some(n) => n,
        None => match measure_special(data) {
            Some(n) => n,
            None => {
                return Err(ScalarError::Invalid);
            },
        },
    };
    let numeral = slice_subrange(data, 0, n);
    let rest = slice_subrange(data, n, data.len());
    Ok((PhpBstr::new(numeral), rest))
}

} // verus!
