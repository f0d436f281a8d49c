use dbus_codec::dbus_type::DBusType;
use dbus_codec::dbus_value::{DBusValue, ValueKind};
use dbus_codec::value_grammar::Fault;
use dbus_codec::value_text::{escaped, hex, signed};
use dbus_codec::value_parser::{ parse_items, parse_literal_chars, parse_quoted, parse_value, read_word, string_of, };
use dbus_codec::parser::{Error, ParserError};

fn parsed(text: &str) -> DBusValue {
    DBusValue::parse(text).unwrap()
}

fn fault(text: &str) -> (i32, i32, String) {
    let error = DBusValue::parse(text).unwrap_err();
    assert_eq!(error.errors.len(), 1);
    (
        error.errors[0].line,
        error.errors[0].column,
        error.errors[0].error.to_string(),
    )
}

#[test]
fn dbus_value_test_parse() {
    let value: DBusValue = parsed("{ \"test\": -8i }");
    assert_eq!(
        value,
        DBusValue::Vec(vec![
            DBusValue::String("test".to_string()),
            DBusValue::Int32(-8)
        ])
    );

    let double = parsed("-1.9d");
    assert_eq!(double, DBusValue::Double("-1.9".to_string()));
    match double {
        DBusValue::Double(text) => assert_eq!(text.parse::<f64>().unwrap(), -1.9),
        _ => unreachable!(),
    }
    assert_eq!(parsed("ffy"), DBusValue::Byte(255u8));
    assert_eq!(parsed("fey"), DBusValue::Byte(254u8));
    assert_eq!(
        parsed("launch-new-instance@gnome-shell-extensions.gcampax.github.com"),
        DBusValue::String("launch-new-instance@gnome-shell-extensions.gcampax.github.com".into())
    );
    assert_eq!(
        parsed("(8i,some@string)"),
        DBusValue::Vec(vec![
            DBusValue::Int32(8),
            DBusValue::String("some@string".into())
        ])
    );
}

#[test]
fn parse_empty_text_is_unit() {
    assert_eq!(parsed(""), DBusValue::Unit);
}

#[test]
fn parse_booleans() {
    assert_eq!(parsed("true"), DBusValue::Boolean(true));
    assert_eq!(parsed("false"), DBusValue::Boolean(false));
    assert_eq!(parsed("True"), DBusValue::String("True".into()));
    assert_eq!(parsed("\"true\""), DBusValue::String("true".into()));
}

#[test]
fn parse_tagged_integers() {
    assert_eq!(parsed("123"), DBusValue::Int32(123));
    assert_eq!(parsed("-123"), DBusValue::Int32(-123));
    assert_eq!(parsed("123i"), DBusValue::Int32(123));
    assert_eq!(parsed("16n"), DBusValue::Int16(16));
    assert_eq!(parsed("-32768n"), DBusValue::Int16(-32768));
    assert_eq!(parsed("32767n"), DBusValue::Int16(32767));
    assert_eq!(parsed("-9223372036854775808x"), DBusValue::Int64(i64::MIN));
    assert_eq!(parsed("9223372036854775807x"), DBusValue::Int64(i64::MAX));
    assert_eq!(parsed("65535q"), DBusValue::UInt16(65535));
    assert_eq!(parsed("4294967295u"), DBusValue::UInt32(u32::MAX));
    assert_eq!(parsed("18446744073709551615t"), DBusValue::UInt64(u64::MAX));
    assert_eq!(parsed("2147483647"), DBusValue::Int32(i32::MAX));
    assert_eq!(parsed("-2147483648"), DBusValue::Int32(i32::MIN));
    assert_eq!(parsed("0007"), DBusValue::Int32(7));
    assert_eq!(parsed("-0u"), DBusValue::UInt32(0));
}

#[test]
fn parse_bytes_in_hex() {
    assert_eq!(parsed("64y"), DBusValue::Byte(100));
    assert_eq!(parsed("0y"), DBusValue::Byte(0));
    assert_eq!(parsed("FFy"), DBusValue::Byte(255));
    assert_eq!(parsed("aBy"), DBusValue::Byte(0xab));
    assert_eq!(parsed("00ffy"), DBusValue::Byte(255));
}

#[test]
fn parse_doubles_keep_their_text() {
    assert_eq!(parsed("1d"), DBusValue::Double("1".into()));
    assert_eq!(parsed("0.25d"), DBusValue::Double("0.25".into()));
    assert_eq!(parsed("-10.5d"), DBusValue::Double("-10.5".into()));
    assert_eq!(parsed("1.d"), DBusValue::String("1.d".into()));
    assert_eq!(parsed(".5d"), DBusValue::String(".5d".into()));
    assert_eq!(parsed("1.5"), DBusValue::String("1.5".into()));
}

#[test]
fn numbers_out_of_range_are_faults() {
    assert_eq!(fault("2147483648"), (1, 1, "number out of range".to_string()));
    assert_eq!(fault("-2147483649i").2, "number out of range");
    assert_eq!(fault("32768n").2, "number out of range");
    assert_eq!(fault("-32769n").2, "number out of range");
    assert_eq!(fault("9223372036854775808x").2, "number out of range");
    assert_eq!(fault("-9223372036854775809x").2, "number out of range");
    assert_eq!(fault("65536q").2, "number out of range");
    assert_eq!(fault("-1q").2, "number out of range");
    assert_eq!(fault("4294967296u").2, "number out of range");
    assert_eq!(fault("18446744073709551616t").2, "number out of range");
    assert_eq!(
        fault("99999999999999999999999999999999999999999999999999t").2,
        "number out of range"
    );
    assert_eq!(fault("100y").2, "number out of range");
    assert_eq!(fault("[1, 256y]"), (1, 5, "number out of range".to_string()));
}

#[test]
fn parse_words() {
    assert_eq!(parsed("/org/freedesktop/DBus"), DBusValue::String("/org/freedesktop/DBus".into()));
    assert_eq!(parsed("i"), DBusValue::String("i".into()));
    assert_eq!(parsed("-"), DBusValue::String("-".into()));
    assert_eq!(parsed("-i"), DBusValue::String("-i".into()));
    assert_eq!(parsed("y"), DBusValue::String("y".into()));
    assert_eq!(parsed("12ab"), DBusValue::String("12ab".into()));
    assert_eq!(parsed("fly"), DBusValue::String("fly".into()));
    assert_eq!(parsed("  word \n"), DBusValue::String("word".into()));
    assert_eq!(parsed("héllo"), DBusValue::String("héllo".into()));
}

#[test]
fn parse_quoted_strings() {
    assert_eq!(parsed("\"\""), DBusValue::String("".into()));
    assert_eq!(parsed("\"some@string\""), DBusValue::String("some@string".into()));
    assert_eq!(parsed("\"123\""), DBusValue::String("123".into()));
    assert_eq!(parsed("\"a b, c: [d]\""), DBusValue::String("a b, c: [d]".into()));
    assert_eq!(parsed("\"say \\\"hi\\\"\""), DBusValue::String("say \"hi\"".into()));
    assert_eq!(parsed("\"a\\\\b\""), DBusValue::String("a\\b".into()));
    assert_eq!(parsed("\"a\\nb\\tc\\rd\""), DBusValue::String("a\nb\tc\rd".into()));
}

#[test]
fn quoted_string_faults() {
    assert_eq!(fault("\"abc"), (1, 5, "unterminated string".to_string()));
    assert_eq!(fault("\"abc\\"), (1, 6, "unterminated string".to_string()));
    assert_eq!(fault("\"a\\qb\""), (1, 4, "invalid escape sequence".to_string()));
}

#[test]
fn parse_lists_structs_and_dictionaries() {
    assert_eq!(parsed("[]"), DBusValue::Vec(vec![]));
    assert_eq!(parsed("()"), DBusValue::Vec(vec![]));
    assert_eq!(parsed("{}"), DBusValue::Vec(vec![]));
    assert_eq!(parsed("[ ]"), DBusValue::Vec(vec![]));
    assert_eq!(
        parsed("[1, 2,3 ]"),
        DBusValue::Vec(vec![DBusValue::Int32(1), DBusValue::Int32(2), DBusValue::Int32(3)])
    );
    assert_eq!(
        parsed("(3, \"x\")"),
        DBusValue::Vec(vec![DBusValue::Int32(3), DBusValue::String("x".into())])
    );
    assert_eq!(
        parsed("(8i, \"some@string\")"),
        DBusValue::Vec(vec![DBusValue::Int32(8), DBusValue::String("some@string".into())])
    );
    assert_eq!(
        parsed("{ a: 1, b: [2y, 3y] }"),
        DBusValue::Vec(vec![
            DBusValue::String("a".into()),
            DBusValue::Int32(1),
            DBusValue::String("b".into()),
            DBusValue::Vec(vec![DBusValue::Byte(2), DBusValue::Byte(3)]),
        ])
    );
    assert_eq!(
        parsed("[[1], (true, {k: v})]"),
        DBusValue::Vec(vec![
            DBusValue::Vec(vec![DBusValue::Int32(1)]),
            DBusValue::Vec(vec![
                DBusValue::Boolean(true),
                DBusValue::Vec(vec![DBusValue::String("k".into()), DBusValue::String("v".into())]),
            ]),
        ])
    );
}

#[test]
fn bracket_faults() {
    assert_eq!(fault("[1, 2"), (1, 6, "unexpected end of input".to_string()));
    assert_eq!(fault("[1 2]"), (1, 4, "unexpected character".to_string()));
    assert_eq!(fault("[1,]"), (1, 4, "unexpected character".to_string()));
    assert_eq!(fault("[1)"), (1, 3, "unexpected character".to_string()));
    assert_eq!(fault("]"), (1, 1, "unexpected character".to_string()));
    assert_eq!(fault("{a, b}"), (1, 3, "unexpected character".to_string()));
    assert_eq!(fault("{a: 1, b}"), (1, 9, "unexpected character".to_string()));
    assert_eq!(fault("{a: 1: 2}"), (1, 6, "unexpected character".to_string()));
    assert_eq!(fault("1 2"), (1, 3, "unexpected character".to_string()));
    assert_eq!(fault(" "), (1, 2, "unexpected end of input".to_string()));
    assert_eq!(fault("("), (1, 2, "unexpected end of input".to_string()));
}

#[test]
fn faults_count_lines() {
    assert_eq!(fault("[\n  1,\n  ]"), (3, 3, "unexpected character".to_string()));
    assert_eq!(fault("[1,\n\"x"), (2, 3, "unterminated string".to_string()));
}

#[test]
fn kinds_and_own_types() {
    assert_eq!(DBusValue::Int32(1).kind(), ValueKind::Int32);
    assert_eq!(DBusValue::Vec(vec![]).kind(), ValueKind::List);
    assert_eq!(ValueKind::List.as_str(), "vec");
    assert_eq!(ValueKind::UInt64.as_str(), "uint64");

    assert!(DBusValue::Boolean(true).is_type(DBusType::Boolean));
    assert!(!DBusValue::Boolean(true).is_type(DBusType::Byte));
    assert!(DBusValue::Byte(1).is_type(DBusType::Byte));
    assert!(DBusValue::Int16(1).is_type(DBusType::Int16));
    assert!(DBusValue::Int32(1).is_type(DBusType::Int32));
    assert!(!DBusValue::Int32(1).is_type(DBusType::Int16));
    assert!(DBusValue::Int64(1).is_type(DBusType::Int64));
    assert!(DBusValue::UInt16(1).is_type(DBusType::UInt16));
    assert!(DBusValue::UInt32(1).is_type(DBusType::UInt32));
    assert!(!DBusValue::UInt32(1).is_type(DBusType::FileDescriptor));
    assert!(DBusValue::UInt64(1).is_type(DBusType::UInt64));
    assert!(DBusValue::Double("1.5".into()).is_type(DBusType::Double));
    assert!(DBusValue::String("x".into()).is_type(DBusType::String));
    assert!(!DBusValue::String("x".into()).is_type(DBusType::ObjPath));
    assert!(!DBusValue::String("x".into()).is_type(DBusType::Variant));
    assert!(DBusValue::Vec(vec![]).is_type(DBusType::Struct(vec![])));
    assert!(DBusValue::Vec(vec![]).is_type(DBusType::Array {
        value_type: Box::new(DBusType::Int32)
    }));
    assert!(DBusValue::Vec(vec![]).is_type(DBusType::Dictionary {
        key_type: Box::new(DBusType::String),
        value_type: Box::new(DBusType::Int32)
    }));
    assert!(!DBusValue::Vec(vec![]).is_type(DBusType::String));
    assert!(DBusValue::Unit.is_type(DBusType::Unit));
    assert!(!DBusValue::Unit.is_type(DBusType::Int32));
}

#[test]
fn reading_in_the_middle_of_a_text() {
    let chars: Vec<char> = "[1, \"a\\\"b\" , xy] tail".chars().collect();
    assert_eq!(parse_value(&chars, 1), Ok((DBusValue::Int32(1), 2)));
    assert_eq!(parse_value(&chars, 3), Ok((DBusValue::String("a\"b".into()), 10)));
    assert_eq!(parse_quoted(&chars, 5), Ok(("a\"b".to_string(), 10)));
    assert_eq!(
        parse_items(&chars, 1, ']', false),
        Ok((
            vec![
                DBusValue::Int32(1),
                DBusValue::String("a\"b".into()),
                DBusValue::String("xy".into())
            ],
            16
        ))
    );
    assert_eq!(
        parse_items(&chars, 1, ')', false),
        Err((15, Fault::UnexpectedCharacter))
    );
    assert_eq!(
        parse_literal_chars(&chars),
        Err((17, Fault::UnexpectedCharacter))
    );
    assert_eq!(string_of(&chars, 12, 15), " xy");
    let word: Vec<char> = "-12x".chars().collect();
    assert_eq!(read_word(&word), Ok(DBusValue::Int64(-12)));
    let word: Vec<char> = "300y".chars().collect();
    assert_eq!(read_word(&word), Err(Fault::NumberOutOfRange));
    assert_eq!(Fault::InvalidEscape.message(), "invalid escape sequence");
    assert_eq!(Fault::UnexpectedEnd.message(), "unexpected end of input");
}

#[test]
fn faults_have_positions() {
    let chars: Vec<char> = "ab\ncd\n\nef".chars().collect();
    let error = Error::at(&chars, 0, "first");
    assert_eq!((error.line, error.column, error.error), (1, 1, "first"));
    let error = Error::at(&chars, 2, "feed");
    assert_eq!((error.line, error.column), (1, 3));
    let error = Error::at(&chars, 3, "next");
    assert_eq!((error.line, error.column), (2, 1));
    let error = Error::at(&chars, 6, "empty");
    assert_eq!((error.line, error.column), (3, 1));
    let error = Error::at(&chars, 9, "end");
    assert_eq!((error.line, error.column), (4, 3));
    let error = ParserError::single(&chars, 8, "one");
    assert_eq!(error.errors.len(), 1);
    assert_eq!(
        (error.errors[0].line, error.errors[0].column, error.errors[0].error),
        (4, 2, "one")
    );
}

#[test]
fn value_test_parse() {
    let value: DBusValue = parsed("{ \"test\": -8i }");
    assert_eq!(
        value,
        DBusValue::Vec(vec![DBusValue::String("test".to_string()), DBusValue::Int32(-8)])
    );

    match parsed("-1.9d") {
        DBusValue::Double(text) => assert_eq!(text.parse::<f64>().unwrap(), -1.9),
        other => panic!("{:?} is no double", other),
    }
    assert_eq!(parsed("ffy"), DBusValue::Byte(255u8));
    assert_eq!(parsed("fey"), DBusValue::Byte(254u8));
}

#[test]
fn test_i32() {
    let chars: Vec<char> = "123".chars().collect();
    assert_eq!(parse_value(&chars, 0), Ok((DBusValue::Int32(123), 3)));
}

#[test]
fn test_string() {
    let chars: Vec<char> = "\"123\"".chars().collect();
    assert_eq!(
        parse_value(&chars, 0),
        Ok((DBusValue::String(String::from("123")), 5))
    );
}

#[test]
fn values_written_as_literals() {
    assert_eq!(DBusValue::Boolean(true).literal(), "true");
    assert_eq!(DBusValue::Boolean(false).literal(), "false");
    assert_eq!(DBusValue::Byte(0).literal(), "0y");
    assert_eq!(DBusValue::Byte(9).literal(), "9y");
    assert_eq!(DBusValue::Byte(10).literal(), "ay");
    assert_eq!(DBusValue::Byte(100).literal(), "64y");
    assert_eq!(DBusValue::Byte(254).literal(), "fey");
    assert_eq!(DBusValue::Byte(255).literal(), "ffy");
    assert_eq!(DBusValue::Int16(-32768).literal(), "-32768n");
    assert_eq!(DBusValue::Int16(16).literal(), "16n");
    assert_eq!(DBusValue::Int32(-8).literal(), "-8i");
    assert_eq!(DBusValue::Int32(0).literal(), "0i");
    assert_eq!(DBusValue::Int32(i32::MAX).literal(), "2147483647i");
    assert_eq!(DBusValue::Int64(i64::MIN).literal(), "-9223372036854775808x");
    assert_eq!(DBusValue::Int64(i64::MAX).literal(), "9223372036854775807x");
    assert_eq!(DBusValue::UInt16(65535).literal(), "65535q");
    assert_eq!(DBusValue::UInt32(7).literal(), "7u");
    assert_eq!(DBusValue::UInt64(u64::MAX).literal(), "18446744073709551615t");
    assert_eq!(DBusValue::Double("-1.9".into()).literal(), "-1.9d");
    assert_eq!(DBusValue::String("some@string".into()).literal(), "\"some@string\"");
    assert_eq!(DBusValue::String("".into()).literal(), "\"\"");
    assert_eq!(
        DBusValue::String("a\"b\\c\nd\te\rf".into()).literal(),
        "\"a\\\"b\\\\c\\nd\\te\\rf\""
    );
    assert_eq!(DBusValue::Vec(vec![]).literal(), "[]");
    assert_eq!(DBusValue::Vec(vec![DBusValue::Int32(1)]).literal(), "[1i]");
    assert_eq!(
        DBusValue::Vec(vec![
            DBusValue::Int32(1),
            DBusValue::String("x".into()),
            DBusValue::Vec(vec![DBusValue::Byte(255), DBusValue::Boolean(true)]),
        ])
        .literal(),
        "[1i, \"x\", [ffy, true]]"
    );
    assert_eq!(DBusValue::Unit.literal(), "");
    assert_eq!(escaped("a\"b"), "a\\\"b");
    assert_eq!(hex(171), "ab");
    assert_eq!(signed(-12), "-12");
    assert_eq!(signed(12), "12");
}

#[test]
fn literals_read_back() {
    let values = vec![
        DBusValue::Unit,
        DBusValue::Boolean(true),
        DBusValue::Byte(171),
        DBusValue::Int16(-5),
        DBusValue::Int32(i32::MIN),
        DBusValue::Int64(i64::MIN),
        DBusValue::UInt16(0),
        DBusValue::UInt32(u32::MAX),
        DBusValue::UInt64(u64::MAX),
        DBusValue::Double("0.5".into()),
        DBusValue::String("true".into()),
        DBusValue::String("12".into()),
        DBusValue::String("a \"b\" \\ \n".into()),
        DBusValue::Vec(vec![
            DBusValue::Vec(vec![]),
            DBusValue::String("k".into()),
            DBusValue::Vec(vec![DBusValue::Int32(1), DBusValue::Int32(2)]),
        ]),
    ];
    for value in values {
        assert_eq!(parsed(value.literal().as_str()), value);
    }
}
