use phpserz::scalar::{is_ascii_digit, read_float, read_str, read_u32, to_i64, ScalarError};
use phpserz::{ErrorKind, PhpBstr, PhpVisibility};

#[test]
fn counts() {
    assert_eq!(read_u32(b"0:", b':'), Ok((0, &b""[..])));
    assert_eq!(read_u32(b"42:rest", b':'), Ok((42, &b"rest"[..])));
    assert_eq!(read_u32(b"007;x", b';'), Ok((7, &b"x"[..])));
    assert_eq!(read_u32(b"4294967295:", b':'), Ok((u32::MAX, &b""[..])));
    assert_eq!(read_u32(b"0000000001:", b':'), Ok((1, &b""[..])));
}

#[test]
fn counts_that_are_refused() {
    assert_eq!(read_u32(b"", b':'), Err(ScalarError::Eof));
    assert_eq!(read_u32(b"123", b':'), Err(ScalarError::Eof));
    assert_eq!(read_u32(b":", b':'), Err(ScalarError::Empty));
    assert_eq!(read_u32(b"12;", b':'), Err(ScalarError::Invalid));
    assert_eq!(read_u32(b"-1:", b':'), Err(ScalarError::Invalid));
    assert_eq!(read_u32(b"4294967296:", b':'), Err(ScalarError::Overflow));
    assert_eq!(read_u32(b"00000000001:", b':'), Err(ScalarError::Overflow));
    assert_eq!(
        read_u32(b"99999999999999999999999999:", b':'),
        Err(ScalarError::Overflow)
    );
    assert_eq!(
        read_u32(b"99999999999999999999999999x", b':'),
        Err(ScalarError::Invalid)
    );
    assert_eq!(read_u32(b"12", b'2'), Err(ScalarError::Eof));
}

#[test]
fn integers() {
    assert_eq!(to_i64(b"0;"), Ok((0, &b""[..])));
    assert_eq!(to_i64(b"-0;"), Ok((0, &b""[..])));
    assert_eq!(to_i64(b"2147483647;"), Ok((2147483647, &b""[..])));
    assert_eq!(to_i64(b"-2147483648;N;"), Ok((-2147483648, &b"N;"[..])));
    assert_eq!(to_i64(b"9223372036854775807;"), Ok((i64::MAX, &b""[..])));
    assert_eq!(to_i64(b"-9223372036854775808;"), Ok((i64::MIN, &b""[..])));
    assert_eq!(to_i64(b"0000000000000000001;"), Ok((1, &b""[..])));
}

#[test]
fn integers_that_are_refused() {
    assert_eq!(to_i64(b""), Err(ScalarError::Empty));
    assert_eq!(to_i64(b";"), Err(ScalarError::Empty));
    assert_eq!(to_i64(b"-;"), Err(ScalarError::Empty));
    assert_eq!(to_i64(b"-"), Err(ScalarError::Eof));
    assert_eq!(to_i64(b"42"), Err(ScalarError::Eof));
    assert_eq!(to_i64(b"+42;"), Err(ScalarError::Invalid));
    assert_eq!(to_i64(b"--1;"), Err(ScalarError::Invalid));
    assert_eq!(to_i64(b"1a;"), Err(ScalarError::Invalid));
    assert_eq!(to_i64(b"4 2;"), Err(ScalarError::Invalid));
    assert_eq!(to_i64(b"9223372036854775808;"), Err(ScalarError::Overflow));
    assert_eq!(to_i64(b"-9223372036854775809;"), Err(ScalarError::Overflow));
    assert_eq!(to_i64(b"18446744073709551615;"), Err(ScalarError::Overflow));
    assert_eq!(to_i64(b"18446744073709551616;"), Err(ScalarError::Overflow));
    assert_eq!(to_i64(b"00000000000000000001;"), Err(ScalarError::Overflow));
    assert_eq!(to_i64(b"-00000000000000000001;"), Err(ScalarError::Overflow));
}

#[test]
fn strings() {
    assert_eq!(
        read_str(b"5:\"hello\";"),
        Ok((PhpBstr::new(b"hello"), &b";"[..]))
    );
    assert_eq!(read_str(b"0:\"\""), Ok((PhpBstr::new(b""), &b""[..])));
    assert_eq!(
        read_str(b"3:\"\"\"\"\"rest"),
        Ok((PhpBstr::new(b"\"\"\""), &b"rest"[..]))
    );
}

#[test]
fn strings_that_are_refused() {
    assert_eq!(read_str(b""), Err(ScalarError::Eof));
    assert_eq!(read_str(b"5"), Err(ScalarError::Eof));
    assert_eq!(read_str(b":\"\""), Err(ScalarError::Empty));
    assert_eq!(read_str(b"x:\"\""), Err(ScalarError::Invalid));
    assert_eq!(read_str(b"4294967296:\"\""), Err(ScalarError::Overflow));
    assert_eq!(read_str(b"4294967295:\"\""), Err(ScalarError::StringTooLong));
    assert_eq!(read_str(b"5:"), Err(ScalarError::StringTooLong));
    assert_eq!(read_str(b"5:\"hello"), Err(ScalarError::StringTooLong));
    assert_eq!(read_str(b"5:\"hello;"), Err(ScalarError::MissingQuotes));
    assert_eq!(read_str(b"5:'hello\""), Err(ScalarError::MissingQuotes));
    assert_eq!(read_str(b"3:\"hello\""), Err(ScalarError::MissingQuotes));
}

fn numeral(data: &[u8]) -> Option<usize> {
    match read_float(data) {
        Ok((numeral, rest)) => {
            assert_eq!(numeral.as_bytes(), &data[..numeral.as_bytes().len()]);
            assert_eq!(rest, &data[numeral.as_bytes().len()..]);
            Some(numeral.as_bytes().len())
        }
        Err(error) => {
            assert_eq!(error, ScalarError::Invalid);
            None
        }
    }
}

#[test]
fn float_numerals() {
    assert_eq!(numeral(b"3.14;"), Some(4));
    assert_eq!(numeral(b"-0.5"), Some(4));
    assert_eq!(numeral(b"+7"), Some(2));
    assert_eq!(numeral(b"10000000000;"), Some(11));
    assert_eq!(numeral(b"1.0E+25;"), Some(7));
    assert_eq!(numeral(b"1e5x"), Some(3));
    assert_eq!(numeral(b"1e"), Some(1));
    assert_eq!(numeral(b"1e+"), Some(1));
    assert_eq!(numeral(b"1e+;"), Some(1));
    assert_eq!(numeral(b"1.e3"), Some(4));
    assert_eq!(numeral(b"1."), Some(2));
    assert_eq!(numeral(b".5"), Some(2));
    assert_eq!(numeral(b"-.5e-1"), Some(6));
    assert_eq!(numeral(b"3.14.15"), Some(4));
    assert_eq!(numeral(b"3,14"), Some(1));
    assert_eq!(numeral(b"nan"), Some(3));
    assert_eq!(numeral(b"NAN;"), Some(3));
    assert_eq!(numeral(b"-NaN"), Some(4));
    assert_eq!(numeral(b"inf"), Some(3));
    assert_eq!(numeral(b"INF;"), Some(3));
    assert_eq!(numeral(b"-INF;"), Some(4));
    assert_eq!(numeral(b"+inf"), Some(4));
    assert_eq!(numeral(b"infinity"), Some(8));
    assert_eq!(numeral(b"-Infinity;"), Some(9));
    assert_eq!(numeral(b"infinit;"), Some(3));
    assert_eq!(numeral(b"infinit"), Some(3));
}

#[test]
fn float_numerals_that_are_refused() {
    assert_eq!(numeral(b""), None);
    assert_eq!(numeral(b";"), None);
    assert_eq!(numeral(b"-"), None);
    assert_eq!(numeral(b"+"), None);
    assert_eq!(numeral(b"."), None);
    assert_eq!(numeral(b"-."), None);
    assert_eq!(numeral(b"e5"), None);
    assert_eq!(numeral(b".e5"), None);
    assert_eq!(numeral(b"--1.0"), None);
    assert_eq!(numeral(b"invalid"), None);
    assert_eq!(numeral(b"na"), None);
    assert_eq!(numeral(b"in"), None);
    assert_eq!(numeral(b"-in"), None);
    assert_eq!(numeral(b" 1"), None);
}

fn words(alphabet: &[u8], len: usize) -> Vec<Vec<u8>> {
    let mut all: Vec<Vec<u8>> = vec![Vec::new()];
    let mut last: Vec<Vec<u8>> = vec![Vec::new()];
    for _ in 0..len {
        let mut next = Vec::new();
        for word in &last {
            for &byte in alphabet {
                let mut longer = word.clone();
                longer.push(byte);
                next.push(longer);
            }
        }
        all.extend(next.iter().cloned());
        last = next;
    }
    all
}

fn agrees_with_the_converter(word: &[u8]) {
    let converted = fast_float2::parse_partial::<f64, _>(word).ok();
    let delimited = numeral(word);
    assert_eq!(
        delimited,
        converted.map(|(_, len)| len),
        "on {:?}",
        String::from_utf8_lossy(word)
    );
    if let Some(len) = delimited {
        let whole = fast_float2::parse::<f64, _>(&word[..len]).unwrap();
        let (prefix, _) = converted.unwrap();
        assert_eq!(whole.to_bits(), prefix.to_bits());
    }
}

#[test]
fn numerals_are_what_the_converter_takes_decimal() {
    for word in words(b"01.eE+-;", 6) {
        agrees_with_the_converter(&word);
    }
}

#[test]
fn numerals_are_what_the_converter_takes_special() {
    for word in words(b"iInNfFaA+-1", 5) {
        agrees_with_the_converter(&word);
    }
}

#[test]
fn numerals_are_what_the_converter_takes_long() {
    let heads: [&[u8]; 8] = [b"", b"+", b"-", b"1", b"x", b"-i", b"+n", b"."];
    let middles: [&[u8]; 10] = [
        b"inf",
        b"INF",
        b"iNf",
        b"nan",
        b"NaN",
        b"infinity",
        b"INFINITY",
        b"InFiNiTy",
        b"infinitx",
        b"inFinit",
    ];
    let tails: [&[u8]; 6] = [b"", b";", b"y", b"inity", b"1e5", b"\0"];
    for head in heads {
        for middle in middles {
            for tail in tails {
                let word = [head, middle, tail].concat();
                agrees_with_the_converter(&word);
            }
        }
    }
    let digits: [&[u8]; 5] = [
        b"12345678",
        b"123456789012345678901234567890",
        b"0000000000000000000000000000001",
        b"99999999",
        b"1234567",
    ];
    for whole in digits {
        for fraction in digits {
            for exponent in [&b""[..], b"e", b"e5", b"E-308", b"e+9999999999", b"e-"] {
                let word = [whole, b".", fraction, exponent, b";"].concat();
                agrees_with_the_converter(&word);
                let word = [b"-", whole, exponent, b";"].concat();
                agrees_with_the_converter(&word);
                let word = [b".", fraction, exponent].concat();
                agrees_with_the_converter(&word);
            }
        }
    }
}

#[test]
fn digits() {
    for byte in 0..=255u8 {
        assert_eq!(is_ascii_digit(byte), byte.is_ascii_digit());
    }
}

#[test]
fn text_of_valid_bytes() {
    assert_eq!(PhpBstr::new(b"hello").to_str().unwrap(), "hello");
    assert_eq!(PhpBstr::new(b"").to_str().unwrap(), "");
    assert_eq!(
        PhpBstr::new(b"gr\xC3\xBC\xC3\x9Fe \xF0\x9F\x91\x8B").to_str().unwrap().chars().count(),
        7
    );
    assert_eq!(PhpBstr::new(b"a\0b").to_str().unwrap(), "a\0b");
    assert_eq!(PhpBstr::new(b"hello").as_bytes(), b"hello");
}

#[test]
fn text_of_invalid_bytes() {
    let error = PhpBstr::new(b"ab\xFFcd").to_str().unwrap_err();
    assert!(matches!(error.kind(), ErrorKind::Utf8 { position: 2 }));
    assert_eq!(error.position(), Some(2));
    let error = PhpBstr::new(b"\xFF\xFF\xFF\xFF").to_str().unwrap_err();
    assert!(matches!(error.kind(), ErrorKind::Utf8 { position: 0 }));
    let error = PhpBstr::new(b"abc\xF0\x9F\x91").to_str().unwrap_err();
    assert!(matches!(error.kind(), ErrorKind::Utf8 { position: 3 }));
    let error = PhpBstr::new(b"\xC3\xBC\xED\xA0\x80").to_str().unwrap_err();
    assert!(matches!(error.kind(), ErrorKind::Utf8 { position: 2 }));
}

fn demangled(bytes: &[u8]) -> (&[u8], PhpVisibility) {
    let bstr = PhpBstr::new(bytes);
    let (name, visibility) = bstr.property_name();
    if let Ok((text, same)) = bstr.to_property() {
        assert_eq!(text.as_bytes(), name);
        assert_eq!(same, visibility);
    }
    (name, visibility)
}

#[test]
fn demangling() {
    assert_eq!(
        demangled(b"\0MyClass\0privateVar"),
        (&b"privateVar"[..], PhpVisibility::Private)
    );
    assert_eq!(
        demangled(b"\0*\0protectedVar"),
        (&b"protectedVar"[..], PhpVisibility::Protected)
    );
    assert_eq!(
        demangled(b"plainName"),
        (&b"plainName"[..], PhpVisibility::Public)
    );
    assert_eq!(demangled(b""), (&b""[..], PhpVisibility::Public));
    assert_eq!(demangled(b"\0"), (&b"\0"[..], PhpVisibility::Public));
    assert_eq!(demangled(b"\0*"), (&b"\0*"[..], PhpVisibility::Public));
    assert_eq!(demangled(b"\0*\0"), (&b""[..], PhpVisibility::Protected));
    assert_eq!(demangled(b"\0\0"), (&b""[..], PhpVisibility::Private));
    assert_eq!(demangled(b"\0\0x"), (&b"x"[..], PhpVisibility::Private));
    assert_eq!(demangled(b"\0A\0"), (&b""[..], PhpVisibility::Private));
    assert_eq!(
        demangled(b"\0NoSecondNul"),
        (&b"\0NoSecondNul"[..], PhpVisibility::Public)
    );
    assert_eq!(
        demangled(b"\0A\0b\0c"),
        (&b"b\0c"[..], PhpVisibility::Private)
    );
    assert_eq!(
        demangled(b"\0**\0x"),
        (&b"x"[..], PhpVisibility::Private)
    );
    assert_eq!(
        demangled(b"a\0b\0c"),
        (&b"a\0b\0c"[..], PhpVisibility::Public)
    );
}

#[test]
fn demangling_needs_text_in_the_name_only() {
    let bstr = PhpBstr::new(b"\0\xFF\xFE\0name");
    assert_eq!(bstr.to_property().unwrap(), ("name", PhpVisibility::Private));
    assert!(bstr.to_str().is_err());
    let error = PhpBstr::new(b"\0Class\0na\xFFme").to_property().unwrap_err();
    assert!(matches!(error.kind(), ErrorKind::Utf8 { position: 2 }));
    let error = PhpBstr::new(b"\0\xFFno second").to_property().unwrap_err();
    assert!(matches!(error.kind(), ErrorKind::Utf8 { position: 1 }));
}
