use phpserz::{
    Error, ErrorKind, PhpBstr, PhpDeserializer, PhpParser, PhpShape, PhpToken, PhpVisit,
};

fn mismatch(error: &Error) -> (&str, Option<usize>) {
    match error.kind() {
        ErrorKind::Deserialize { message, position } => {
            assert_eq!(error.position(), *position);
            (message.as_str(), *position)
        }
        other => panic!("Expected a shape mismatch, got {:?}", other),
    }
}

#[test]
fn any_goes_by_the_token_that_is_found() {
    let input = b"N;b:1;i:-5;d:2.5;s:2:\"\xFFa\";a:1:{O:1:\"C\":0:{r:9;";
    let mut de = PhpDeserializer::new(input);
    assert_eq!(de.deserialize_any().unwrap(), PhpVisit::Unit);
    assert_eq!(de.deserialize_any().unwrap(), PhpVisit::Bool(true));
    assert_eq!(de.deserialize_any().unwrap(), PhpVisit::Integer(-5));
    assert_eq!(
        de.deserialize_any().unwrap(),
        PhpVisit::Float(PhpBstr::new(b"2.5"))
    );
    assert_eq!(de.deserialize_any().unwrap(), PhpVisit::Bytes(b"\xFFa"));
    assert_eq!(de.deserialize_any().unwrap(), PhpVisit::Sequence);
    assert_eq!(de.deserialize_any().unwrap(), PhpVisit::Entries);
    assert_eq!(de.deserialize_any().unwrap(), PhpVisit::Integer(9));
    assert_eq!(de.position(), input.len());
    assert!(matches!(
        de.deserialize_any().unwrap_err().kind(),
        ErrorKind::Eof
    ));
}

#[test]
fn any_refuses_the_closing_brace() {
    let mut de = PhpDeserializer::new(b"N;}");
    de.deserialize_any().unwrap();
    let error = de.deserialize_any().unwrap_err();
    assert_eq!(mismatch(&error), ("Unexpected token", Some(3)));
    assert_eq!(de.position(), 3);
}

#[test]
fn token_dispatch() {
    let de = PhpDeserializer::new(b"");
    assert_eq!(de.deserialize_token(PhpToken::Null).unwrap(), PhpVisit::Unit);
    assert_eq!(
        de.deserialize_token(PhpToken::Array { elements: 3 }).unwrap(),
        PhpVisit::Sequence
    );
    assert_eq!(
        de.deserialize_token(PhpToken::Object {
            class: PhpBstr::new(b"C"),
            properties: 1
        })
        .unwrap(),
        PhpVisit::Entries
    );
    assert_eq!(
        de.deserialize_token(PhpToken::Reference(-1)).unwrap(),
        PhpVisit::Integer(-1)
    );
    let error = de.deserialize_token(PhpToken::End).unwrap_err();
    assert_eq!(mismatch(&error), ("Unexpected token", Some(0)));
}

#[test]
fn text_is_checked_on_request_only() {
    let input = b"s:4:\"a\xFFbc\";s:4:\"a\xFFbc\";s:2:\"ok\";i:3;";
    let mut de = PhpDeserializer::new(input);
    assert_eq!(de.deserialize_any().unwrap(), PhpVisit::Bytes(b"a\xFFbc"));
    let error = de.deserialize_str().unwrap_err();
    assert!(matches!(error.kind(), ErrorKind::Utf8 { position: 1 }));
    assert_eq!(de.position(), 22);
    assert_eq!(de.deserialize_str().unwrap(), PhpVisit::Text("ok"));
    assert_eq!(de.deserialize_str().unwrap(), PhpVisit::Integer(3));
    assert!(matches!(
        de.deserialize_str().unwrap_err().kind(),
        ErrorKind::Eof
    ));
}

#[test]
fn option_of_a_null_is_absent() {
    let mut de = PhpDeserializer::new(b"N;i:1;");
    assert_eq!(de.deserialize_option().unwrap(), PhpVisit::Absent);
    assert_eq!(de.position(), 2);
    assert_eq!(de.deserialize_any().unwrap(), PhpVisit::Integer(1));
}

#[test]
fn option_of_a_value_does_not_take_it() {
    let mut de = PhpDeserializer::new(b"i:1;N;");
    assert_eq!(de.deserialize_option().unwrap(), PhpVisit::Present);
    assert_eq!(de.position(), 0);
    assert_eq!(de.deserialize_option().unwrap(), PhpVisit::Present);
    assert_eq!(de.position(), 0);
    assert_eq!(de.deserialize_any().unwrap(), PhpVisit::Integer(1));
    assert_eq!(de.position(), 4);
    assert_eq!(de.deserialize_option().unwrap(), PhpVisit::Absent);
    assert_eq!(de.position(), 6);
    assert!(matches!(
        de.deserialize_option().unwrap_err().kind(),
        ErrorKind::Eof
    ));
}

#[test]
fn option_errors() {
    let mut de = PhpDeserializer::new(b"N:");
    let error = de.deserialize_option().unwrap_err();
    assert!(matches!(
        error.kind(),
        ErrorKind::MismatchByte {
            expected: b';',
            found: b':',
            position: 1
        }
    ));
    let mut de = PhpDeserializer::new(b"?");
    let error = de.deserialize_option().unwrap_err();
    assert!(matches!(
        error.kind(),
        ErrorKind::UnexpectedByte {
            found: b'?',
            position: 0
        }
    ));
}

#[test]
fn tuple_holds_the_header_to_its_count() {
    let mut de = PhpDeserializer::new(b"a:2:{i:0;i:1;}");
    assert_eq!(de.deserialize_tuple(2).unwrap(), PhpVisit::Sequence);
    assert_eq!(de.position(), 5);

    let mut de = PhpDeserializer::new(b"a:2:{i:0;i:1;}");
    let error = de.deserialize_tuple(3).unwrap_err();
    assert_eq!(mismatch(&error), ("Array length mismatch", Some(5)));

    let mut de = PhpDeserializer::new(b"a:0:{}");
    assert_eq!(de.deserialize(PhpShape::TupleStruct(0)).unwrap(), PhpVisit::Sequence);

    let mut de = PhpDeserializer::new(b"O:1:\"C\":2:{");
    let error = de.deserialize_tuple(2).unwrap_err();
    assert_eq!(mismatch(&error), ("Expected array", Some(11)));

    let mut de = PhpDeserializer::new(b"");
    let error = de.deserialize_tuple(0).unwrap_err();
    assert_eq!(mismatch(&error), ("Expected array", Some(0)));

    let mut de = PhpDeserializer::new(b"a:x:{");
    let error = de.deserialize_tuple(0).unwrap_err();
    assert!(matches!(
        error.kind(),
        ErrorKind::InvalidNumber { position: 2 }
    ));
}

#[test]
fn map_takes_an_array_or_an_object() {
    let mut de = PhpDeserializer::new(b"a:1:{O:3:\"Foo\":7:{i:1;");
    assert_eq!(de.deserialize_map().unwrap(), PhpVisit::Entries);
    assert_eq!(de.deserialize_map().unwrap(), PhpVisit::Entries);
    let error = de.deserialize_map().unwrap_err();
    assert_eq!(mismatch(&error), ("Expected array or object", Some(22)));
    assert!(matches!(
        de.deserialize_map().unwrap_err().kind(),
        ErrorKind::Eof
    ));
}

#[test]
fn walk_ends_at_the_closing_brace() {
    let mut de = PhpDeserializer::new(b"a:5:{i:0;}N;");
    assert_eq!(de.deserialize_any().unwrap(), PhpVisit::Sequence);
    assert!(de.next_element().unwrap());
    assert_eq!(de.position(), 5);
    assert!(de.next_key().unwrap());
    assert_eq!(de.deserialize_any().unwrap(), PhpVisit::Integer(0));
    assert!(!de.next_element().unwrap());
    assert_eq!(de.position(), 10);
    assert!(de.next_key().unwrap());
    assert_eq!(de.deserialize_any().unwrap(), PhpVisit::Unit);
    assert!(matches!(
        de.next_element().unwrap_err().kind(),
        ErrorKind::Eof
    ));
    assert!(matches!(de.next_key().unwrap_err().kind(), ErrorKind::Eof));
}

#[test]
fn walk_errors() {
    let mut de = PhpDeserializer::new(b"a:1:{x");
    de.deserialize_any().unwrap();
    let error = de.next_element().unwrap_err();
    assert!(matches!(
        error.kind(),
        ErrorKind::UnexpectedByte {
            found: b'x',
            position: 5
        }
    ));
}

#[test]
fn enum_starts_with_one_of_four_kinds() {
    for input in [&b"s:1:\"N\";"[..], b"i:1;", b"b:0;", b"a:1:{"] {
        let mut de = PhpDeserializer::new(input);
        assert_eq!(de.deserialize_enum().unwrap(), PhpVisit::Variant);
        assert_eq!(de.position(), 0);
    }
    for input in [&b"N;"[..], b"d:1;", b"O:1:\"C\":0:{", b"}", b"r:1;", b""] {
        let mut de = PhpDeserializer::new(input);
        let error = de.deserialize_enum().unwrap_err();
        assert_eq!(mismatch(&error), ("Expected token for enum variant", Some(0)));
    }
    let mut de = PhpDeserializer::new(b"\n!");
    assert!(matches!(
        de.deserialize_enum().unwrap_err().kind(),
        ErrorKind::UnexpectedByte {
            found: b'!',
            position: 0
        }
    ));
}

#[test]
fn variant_is_named_by_a_string() {
    let mut de = PhpDeserializer::new(b"s:1:\"Y\";i:1;s:1:\"\xFF\";");
    assert_eq!(de.deserialize_enum().unwrap(), PhpVisit::Variant);
    assert_eq!(de.deserialize_variant().unwrap(), PhpVisit::Text("Y"));
    assert_eq!(de.deserialize_enum().unwrap(), PhpVisit::Variant);
    let error = de.deserialize_variant().unwrap_err();
    assert_eq!(mismatch(&error), ("Expected string for enum variant", Some(12)));
    let error = de.deserialize_variant().unwrap_err();
    assert!(matches!(error.kind(), ErrorKind::Utf8 { position: 0 }));
    assert!(matches!(
        de.deserialize_variant().unwrap_err().kind(),
        ErrorKind::Eof
    ));
}

#[test]
fn identifier_is_the_clean_name() {
    let input =
        b"s:4:\"name\";s:12:\"\0Example\0age\";s:11:\"\0*\0isActive\";s:3:\"\0ab\";i:7;s:3:\"\0\0\xFF\";";
    let mut de = PhpDeserializer::new(input);
    assert_eq!(de.deserialize_identifier().unwrap(), PhpVisit::Name("name"));
    assert_eq!(de.deserialize_identifier().unwrap(), PhpVisit::Name("age"));
    assert_eq!(
        de.deserialize_identifier().unwrap(),
        PhpVisit::Name("isActive")
    );
    assert_eq!(de.deserialize_identifier().unwrap(), PhpVisit::Name("\0ab"));
    assert_eq!(de.deserialize_identifier().unwrap(), PhpVisit::Integer(7));
    let error = de.deserialize_identifier().unwrap_err();
    assert!(matches!(error.kind(), ErrorKind::Utf8 { position: 0 }));
}

#[test]
fn ignored_value_takes_one_token() {
    let mut de = PhpDeserializer::new(b"a:1:{i:0;N;}");
    assert_eq!(de.deserialize_ignored_any().unwrap(), PhpVisit::Sequence);
    assert_eq!(de.position(), 5);
}

#[test]
fn shapes() {
    let by_kind = [
        PhpShape::Any,
        PhpShape::Bool,
        PhpShape::I8,
        PhpShape::I16,
        PhpShape::I32,
        PhpShape::I64,
        PhpShape::U8,
        PhpShape::U16,
        PhpShape::U32,
        PhpShape::U64,
        PhpShape::F32,
        PhpShape::F64,
        PhpShape::Bytes,
        PhpShape::ByteBuf,
        PhpShape::Unit,
        PhpShape::UnitStruct,
        PhpShape::Sequence,
        PhpShape::IgnoredAny,
    ];
    for shape in by_kind {
        let mut de = PhpDeserializer::new(b"s:1:\"\xFF\";");
        assert_eq!(de.deserialize(shape).unwrap(), PhpVisit::Bytes(b"\xFF"));
        let mut de = PhpDeserializer::new(b"i:4;");
        assert_eq!(de.deserialize(shape).unwrap(), PhpVisit::Integer(4));
        let mut de = PhpDeserializer::new(b"O:1:\"C\":0:{");
        assert_eq!(de.deserialize(shape).unwrap(), PhpVisit::Entries);
    }
    for shape in [PhpShape::Char, PhpShape::Str, PhpShape::Text] {
        let mut de = PhpDeserializer::new(b"s:1:\"x\";");
        assert_eq!(de.deserialize(shape).unwrap(), PhpVisit::Text("x"));
        let mut de = PhpDeserializer::new(b"s:1:\"\xFF\";");
        assert!(matches!(
            de.deserialize(shape).unwrap_err().kind(),
            ErrorKind::Utf8 { position: 0 }
        ));
    }
    for shape in [PhpShape::Entries, PhpShape::Struct] {
        let mut de = PhpDeserializer::new(b"a:0:{");
        assert_eq!(de.deserialize(shape).unwrap(), PhpVisit::Entries);
        let mut de = PhpDeserializer::new(b"i:0;");
        assert!(de.deserialize(shape).is_err());
    }
    for shape in [PhpShape::Tuple(2), PhpShape::TupleStruct(2)] {
        let mut de = PhpDeserializer::new(b"a:2:{");
        assert_eq!(de.deserialize(shape).unwrap(), PhpVisit::Sequence);
        let mut de = PhpDeserializer::new(b"a:1:{");
        assert!(de.deserialize(shape).is_err());
    }
    let mut de = PhpDeserializer::new(b"N;");
    assert_eq!(de.deserialize(PhpShape::NewtypeStruct).unwrap(), PhpVisit::Wrapped);
    assert_eq!(de.position(), 0);
    assert_eq!(de.deserialize(PhpShape::Optional).unwrap(), PhpVisit::Absent);
    let mut de = PhpDeserializer::new(b"s:1:\"N\";");
    assert_eq!(de.deserialize(PhpShape::Enum).unwrap(), PhpVisit::Variant);
    let mut de = PhpDeserializer::new(b"s:4:\"\0*\0n\";");
    assert_eq!(de.deserialize(PhpShape::Identifier).unwrap(), PhpVisit::Name("n"));
}

#[test]
fn tokenizer_and_bridge_hand_over_to_each_other() {
    let input = b"i:1;s:1:\"a\";N;b:1;";
    let mut parser = PhpParser::new(input);
    assert_eq!(parser.next_token().unwrap(), Some(PhpToken::Integer(1)));
    let mut de = PhpDeserializer::from_parser(parser);
    assert_eq!(de.position(), 4);
    assert_eq!(de.deserialize_option().unwrap(), PhpVisit::Present);
    let mut parser = de.into_parser();
    assert_eq!(parser.position(), 4);
    assert_eq!(
        parser.next_token().unwrap(),
        Some(PhpToken::String(PhpBstr::new(b"a")))
    );
    let mut de = PhpDeserializer::from_parser(parser);
    assert_eq!(de.deserialize_option().unwrap(), PhpVisit::Absent);
    let mut parser = de.into_parser();
    assert_eq!(parser.next_token().unwrap(), Some(PhpToken::Boolean(true)));
    assert_eq!(parser.next_token().unwrap(), None);
}

#[test]
fn error_from_kind() {
    let error = Error::from(ErrorKind::Overflow { position: 9 });
    assert!(matches!(error.kind(), ErrorKind::Overflow { position: 9 }));
    assert_eq!(error.position(), Some(9));
    assert_eq!(Error::from(ErrorKind::Eof).position(), None);
    let error = Error::from(ErrorKind::Deserialize {
        message: "m".to_string(),
        position: None,
    });
    assert_eq!(error.position(), None);
    let error = Error::from(ErrorKind::MismatchByte {
        expected: b';',
        found: b':',
        position: 3,
    });
    assert_eq!(error.position(), Some(3));
}

#[test]
fn messages() {
    let message = |kind: ErrorKind| Error::from(kind).message();
    assert_eq!(message(ErrorKind::Eof), "Unexpected end of data");
    assert_eq!(
        message(ErrorKind::MismatchByte {
            expected: b';',
            found: b'x',
            position: 12
        }),
        "Expected byte ';', found 'x' at position: 12"
    );
    assert_eq!(
        message(ErrorKind::MismatchByte {
            expected: b';',
            found: b':',
            position: 1
        }),
        "Expected byte ';', found 0x3a at position: 1"
    );
    assert_eq!(
        message(ErrorKind::UnexpectedByte {
            found: b'Z',
            position: 0
        }),
        "Unexpected byte 'Z' at position: 0"
    );
    assert_eq!(
        message(ErrorKind::UnexpectedByte {
            found: 0x0F,
            position: 1234567890
        }),
        "Unexpected byte 0x0f at position: 1234567890"
    );
    assert_eq!(
        message(ErrorKind::UnexpectedByte {
            found: 0xFF,
            position: usize::MAX
        }),
        format!("Unexpected byte 0xff at position: {}", usize::MAX)
    );
    assert_eq!(
        message(ErrorKind::Deserialize {
            message: "Array length mismatch".to_string(),
            position: Some(5)
        }),
        "Deserialization error: Array length mismatch at position: 5"
    );
    assert_eq!(
        message(ErrorKind::Deserialize {
            message: "missing field `name`".to_string(),
            position: None
        }),
        "Deserialization error: missing field `name`"
    );
    assert_eq!(
        message(ErrorKind::Empty { position: 2 }),
        "Unable to decode empty data at position: 2"
    );
    assert_eq!(
        message(ErrorKind::MissingQuotes { position: 10 }),
        "Missing quotes in string at position: 10"
    );
    assert_eq!(
        message(ErrorKind::StringTooLong { position: 99 }),
        "String is too long at position: 99"
    );
    assert_eq!(
        message(ErrorKind::InvalidNumber { position: 100 }),
        "Invalid number at position: 100"
    );
    assert_eq!(
        message(ErrorKind::Overflow { position: 7 }),
        "Overflow at position: 7"
    );
    assert_eq!(
        message(ErrorKind::Utf8 { position: 3 }),
        "UTF-8 conversion error: invalid utf-8 sequence at position: 3"
    );
    for byte in 0..=255u8 {
        let expected = if byte.is_ascii_alphanumeric() {
            format!("Unexpected byte '{}' at position: 0", byte as char)
        } else {
            format!("Unexpected byte 0x{byte:02x} at position: 0")
        };
        assert_eq!(
            message(ErrorKind::UnexpectedByte {
                found: byte,
                position: 0
            }),
            expected
        );
    }
}
