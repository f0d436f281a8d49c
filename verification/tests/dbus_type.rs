use dbus_codec::dbus_error::DBusError;
use dbus_codec::dbus_type::DBusType;
use dbus_codec::parser::Parser;
use dbus_codec::type_parser::DBusTypeParser;
use dbus_codec::dbus_value::ValueKind;
use dbus_codec::type_parser::{parse_fields, parse_signature_chars, parse_type};

#[test]
fn test_conversions() {
    assert_eq!(DBusType::String.render(), "s".to_string());

    assert_eq!(DBusType::Variant.render(), "v".to_string());

    assert_eq!(
        DBusType::Array {
            value_type: Box::new(DBusType::String)
        }
        .render(),
        "as".to_string()
    );

    assert_eq!(
        DBusType::Struct(vec![
            DBusType::String,
            DBusType::Int64,
            DBusType::Array {
                value_type: DBusType::String.into()
            }
        ])
        .render(),
        "(sxas)".to_string()
    );
}

#[test]
fn test_invert() {
    assert_eq!(
        DBusType::parse("(si)"),
        Ok(DBusType::Struct(vec![DBusType::String, DBusType::Int32]))
    );
}

#[test]
fn parse_every_code() {
    let codes = [
        ("b", DBusType::Boolean),
        ("y", DBusType::Byte),
        ("n", DBusType::Int16),
        ("i", DBusType::Int32),
        ("x", DBusType::Int64),
        ("q", DBusType::UInt16),
        ("u", DBusType::UInt32),
        ("t", DBusType::UInt64),
        ("d", DBusType::Double),
        ("s", DBusType::String),
        ("o", DBusType::ObjPath),
        ("g", DBusType::Signature),
        ("h", DBusType::FileDescriptor),
        ("v", DBusType::Variant),
    ];
    for (text, expected) in codes {
        assert_eq!(expected.render(), text.to_string());
        assert_eq!(DBusType::parse(text), Ok(expected));
    }
}

#[test]
fn parse_empty_is_unit() {
    assert_eq!(DBusType::parse(""), Ok(DBusType::Unit));
    assert_eq!(DBusType::Unit.render(), "".to_string());
}

#[test]
fn round_trip_nested() {
    let text = "(sxas)";
    let parsed = DBusType::parse(text).unwrap();
    assert_eq!(
        parsed,
        DBusType::Struct(vec![
            DBusType::String,
            DBusType::Int64,
            DBusType::Array {
                value_type: Box::new(DBusType::String)
            }
        ])
    );
    assert_eq!(parsed.render(), text.to_string());

    for text in ["a{s(ia{yv})}", "aai", "()", "(a{sv}(i(u))ah)", "a{oa{sa{sv}}}"] {
        let parsed = DBusType::parse(text).unwrap();
        assert_eq!(parsed.render(), text.to_string());
        assert_eq!(DBusType::parse(parsed.render().as_str()), Ok(parsed));
    }
}

#[test]
fn parse_dictionary() {
    assert_eq!(
        DBusType::parse("a{si}"),
        Ok(DBusType::Dictionary {
            key_type: Box::new(DBusType::String),
            value_type: Box::new(DBusType::Int32)
        })
    );
}

#[test]
fn dictionary_key_must_be_basic() {
    assert_eq!(DBusType::parse("a{(si)i}"), Err(DBusError::InvalidSignature));
    assert_eq!(DBusType::parse("a{aii}"), Err(DBusError::InvalidSignature));
    assert_eq!(DBusType::parse("a{a{si}i}"), Err(DBusError::InvalidSignature));
    assert_eq!(DBusType::parse("a{vi}"), Err(DBusError::InvalidSignature));
    assert!(DBusType::parse("a{hi}").is_ok());
}

#[test]
fn invalid_signatures() {
    for text in ["z", "(si", "a{si", "a{s}", "a{sii}", "a", "(", ")", "ii", "(i)i", "i ", "a{", "é"] {
        assert_eq!(DBusType::parse(text), Err(DBusError::InvalidSignature), "{}", text);
    }
}

#[test]
fn parser_reports_position() {
    assert_eq!(
        DBusTypeParser::parse("(si)").unwrap(),
        DBusType::Struct(vec![DBusType::String, DBusType::Int32])
    );

    let error = DBusTypeParser::parse("(sz)").unwrap_err();
    assert_eq!(error.errors.len(), 1);
    assert_eq!(error.errors[0].line, 1);
    assert_eq!(error.errors[0].column, 3);
    assert_eq!(error.errors[0].error, "Invalid Signature");

    let error = DBusTypeParser::parse("(si").unwrap_err();
    assert_eq!(error.errors[0].line, 1);
    assert_eq!(error.errors[0].column, 4);

    let error = DBusTypeParser::parse("a{(si)i}").unwrap_err();
    assert_eq!(error.errors[0].column, 3);

    let error = DBusTypeParser::parse("(s\n\nz)").unwrap_err();
    assert_eq!(error.errors[0].line, 1);
    assert_eq!(error.errors[0].column, 3);

    let error = DBusTypeParser::parse("ii").unwrap_err();
    assert_eq!(error.errors[0].column, 2);
}

#[test]
fn type_helpers() {
    let dictionary = DBusType::parse("a{si}").unwrap();
    let record = DBusType::parse("(sx)").unwrap();
    let array = DBusType::parse("ay").unwrap();

    assert_eq!(DBusType::Int32.expected_kind(), Some(ValueKind::Int32));
    assert_eq!(DBusType::ObjPath.expected_kind(), Some(ValueKind::String));
    assert_eq!(DBusType::Signature.expected_kind(), Some(ValueKind::String));
    assert_eq!(DBusType::FileDescriptor.expected_kind(), Some(ValueKind::UInt32));
    assert_eq!(dictionary.expected_kind(), Some(ValueKind::List));
    assert_eq!(DBusType::Variant.expected_kind(), None);
    assert_eq!(DBusType::Unit.expected_kind(), Some(ValueKind::Unit));

    assert!(record.admits_len(2));
    assert!(!record.admits_len(3));
    assert!(dictionary.admits_len(4));
    assert!(!dictionary.admits_len(5));
    assert!(array.admits_len(7));

    assert_eq!(record.slot_type(0), Some(&DBusType::String));
    assert_eq!(record.slot_type(1), Some(&DBusType::Int64));
    assert_eq!(record.slot_type(2), None);
    assert_eq!(array.slot_type(9), Some(&DBusType::Byte));
    assert_eq!(dictionary.slot_type(0), Some(&DBusType::String));
    assert_eq!(dictionary.slot_type(3), Some(&DBusType::Int32));
    assert_eq!(DBusType::Int32.slot_type(0), None);

    assert_eq!(DBusType::Boolean.code(), Some("b"));
    assert_eq!(DBusType::Variant.code(), Some("v"));
    assert_eq!(record.code(), None);
    assert_eq!(DBusType::Unit.code(), None);

    assert!(DBusType::String.is_basic());
    assert!(DBusType::FileDescriptor.is_basic());
    assert!(!DBusType::Variant.is_basic());
    assert!(!record.is_basic());
    assert!(!DBusType::Unit.is_basic());
}

#[test]
fn parsing_in_the_middle_of_a_text() {
    let chars: Vec<char> = "xx(si)a{sv}".chars().collect();
    assert_eq!(
        parse_type(&chars, 2),
        Ok((DBusType::Struct(vec![DBusType::String, DBusType::Int32]), 6))
    );
    assert_eq!(
        parse_fields(&chars, 3),
        Ok((vec![DBusType::String, DBusType::Int32], 6))
    );
    assert_eq!(parse_type(&chars, 11), Err(11));
    assert_eq!(parse_type(&chars, 5), Err(5));
    assert_eq!(parse_signature_chars(&chars), Err(1));
    let chars: Vec<char> = "ai".chars().collect();
    assert_eq!(
        parse_signature_chars(&chars),
        Ok(DBusType::Array { value_type: Box::new(DBusType::Int32) })
    );
}

#[test]
fn well_formed_types() {
    for text in ["", "i", "(si)", "a{s(ia{yv})}", "()", "av"] {
        let parsed = DBusType::parse(text).unwrap();
        assert!(parsed.is_well_formed(), "{}", text);
        assert_eq!(parsed.is_proper(), !text.is_empty(), "{}", text);
    }
    let nested_unit = DBusType::Struct(vec![DBusType::Int32, DBusType::Unit]);
    assert!(!nested_unit.is_well_formed());
    assert_eq!(nested_unit.render(), "(i)");
    let composite_key = DBusType::Dictionary {
        key_type: Box::new(DBusType::Struct(vec![DBusType::String, DBusType::Int32])),
        value_type: Box::new(DBusType::Int32),
    };
    assert!(!composite_key.is_well_formed());
    assert_eq!(composite_key.render(), "a{(si)i}");
    let variant_key = DBusType::Array {
        value_type: Box::new(DBusType::Dictionary {
            key_type: Box::new(DBusType::Variant),
            value_type: Box::new(DBusType::Int32),
        }),
    };
    assert!(!variant_key.is_proper());
    let unit_array = DBusType::Array { value_type: Box::new(DBusType::Unit) };
    assert!(!unit_array.is_proper());
}
