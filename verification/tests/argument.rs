use dbus_codec::argument::Argument;
use dbus_codec::dbus_argument::DBusArgument;
use dbus_codec::dbus_error::DBusError;
use dbus_codec::dbus_type::DBusType;
use dbus_codec::dbus_value::DBusValue;
use dbus_codec::method::{call_signature, call_type, direction_signature, indented, MethodArgument};
use dbus_codec::text::{chars_of, decimal};
use dbus_codec::wire::WireArgument;
use dbus_codec::wire::encode_conforming;

fn typ(text: &str) -> DBusType {
    DBusType::parse(text).unwrap()
}

fn val(text: &str) -> DBusValue {
    DBusValue::parse(text).unwrap()
}

fn invalid(text: &str) -> Result<(), DBusError> {
    Err(DBusError::InvalidValue(text.to_string()))
}

#[test]
fn test_arguments() {
    let argument = Argument::new(
        typ("a{si}"),
        DBusValue::Vec(vec![DBusValue::String("test".into()), DBusValue::Int32(32)]),
    );

    assert_eq!(argument.validate().map(|_| ()), Ok(()));

    assert!(Argument::new(typ("i"), DBusValue::Int16(16)).validate().is_err())
}

#[test]
fn argument_keeps_its_parts() {
    let argument = Argument::new(DBusType::Int32, DBusValue::Int32(5));
    assert_eq!(*argument.dbus_type, DBusType::Int32);
    assert_eq!(argument.dbus_value, DBusValue::Int32(5));
    let same = argument.validate().unwrap();
    assert_eq!(same, Argument::new(DBusType::Int32, DBusValue::Int32(5)));
}

#[test]
fn dictionary_of_string_to_int_validates() {
    assert_eq!(typ("a{si}").is_valid_value(&val("{ \"key\": 4 }")), Ok(()));
}

#[test]
fn int16_is_no_int32() {
    assert_eq!(
        typ("i").is_valid_value(&val("16n")),
        invalid("Expected int32 got: 16n")
    );
}

#[test]
fn array_fails_at_first_bad_index() {
    assert_eq!(
        typ("ai").is_valid_value(&val("[1, \"x\"]")),
        invalid("index 1: Expected int32 got: \"x\"")
    );
    assert_eq!(
        typ("ai").is_valid_value(&val("[1, \"x\", 2n]")),
        invalid("index 1: Expected int32 got: \"x\"")
    );
    let many = DBusValue::Vec(
        (0..12)
            .map(|i| if i == 11 { DBusValue::Boolean(true) } else { DBusValue::Int32(i) })
            .collect(),
    );
    assert_eq!(
        typ("ai").is_valid_value(&many),
        invalid("index 11: Expected int32 got: true")
    );
    assert_eq!(typ("ai").is_valid_value(&val("[]")), Ok(()));
}

#[test]
fn scalars_match_their_own_kind_only() {
    let pairs = [
        ("b", "true", "boolean", "true"),
        ("y", "1y", "byte", "1y"),
        ("n", "1n", "int16", "1n"),
        ("i", "1i", "int32", "1i"),
        ("x", "1x", "int64", "1x"),
        ("q", "1q", "uint16", "1q"),
        ("u", "1u", "uint32", "1u"),
        ("t", "1t", "uint64", "1t"),
        ("d", "1d", "double", "1d"),
        ("s", "word", "string", "\"word\""),
    ];
    for (i, (sig, literal, name, _)) in pairs.iter().enumerate() {
        for (j, (_, other, _, written)) in pairs.iter().enumerate() {
            let result = typ(sig).is_valid_value(&val(other));
            if i == j {
                assert_eq!(result, Ok(()), "{} {}", sig, literal);
            } else {
                assert_eq!(
                    result,
                    invalid(format!("Expected {} got: {}", name, written).as_str())
                );
            }
        }
    }
}

#[test]
fn borrowed_kinds() {
    assert_eq!(typ("o").is_valid_value(&val("/a/b")), Ok(()));
    assert_eq!(typ("g").is_valid_value(&val("\"a{si}\"")), Ok(()));
    assert_eq!(typ("h").is_valid_value(&val("3u")), Ok(()));
    assert_eq!(typ("h").is_valid_value(&val("3")), invalid("Expected uint32 got: 3i"));
    assert_eq!(typ("o").is_valid_value(&val("3")), invalid("Expected string got: 3i"));
    assert_eq!(typ("g").is_valid_value(&val("[]")), invalid("Expected string got: []"));
}

#[test]
fn variant_takes_everything() {
    assert_eq!(typ("v").is_valid_value(&val("3")), Ok(()));
    assert_eq!(typ("v").is_valid_value(&val("[1, x]")), Ok(()));
    assert_eq!(typ("v").is_valid_value(&DBusValue::Unit), Ok(()));
    assert_eq!(typ("av").is_valid_value(&val("[1, x, (2)]")), Ok(()));
}

#[test]
fn unit_takes_the_unit_value_only() {
    assert_eq!(typ("").is_valid_value(&val("")), Ok(()));
    assert_eq!(typ("").is_valid_value(&val("1")), invalid("Expected unit got: 1i"));
    assert_eq!(typ("i").is_valid_value(&val("")), invalid("Expected int32 got: "));
}

#[test]
fn struct_needs_every_field() {
    assert_eq!(typ("(si)").is_valid_value(&val("(a, 1)")), Ok(()));
    assert_eq!(
        typ("(si)").is_valid_value(&val("(a)")),
        invalid("Wrong number of struct fields")
    );
    assert_eq!(
        typ("(si)").is_valid_value(&val("(a, 1, 2)")),
        invalid("Wrong number of struct fields")
    );
    assert_eq!(
        typ("(si)").is_valid_value(&val("(1, a)")),
        invalid("index 0: Expected string got: 1i")
    );
    assert_eq!(
        typ("(s(ib))").is_valid_value(&val("(a, (1, 2))")),
        invalid("index 1: index 1: Expected boolean got: 2i")
    );
    assert_eq!(typ("(si)").is_valid_value(&val("x")), invalid("Expected vec got: \"x\""));
    assert_eq!(typ("()").is_valid_value(&val("()")), Ok(()));
}

#[test]
fn dictionary_needs_pairs() {
    let odd = DBusValue::Vec(vec![DBusValue::String("k".into())]);
    assert_eq!(typ("a{si}").is_valid_value(&odd), invalid("Unpaired dictionary entry"));
    assert_eq!(typ("a{si}").is_valid_value(&val("{}")), Ok(()));
    assert_eq!(
        typ("a{si}").is_valid_value(&val("{a: 1, 2: 3}")),
        invalid("index 2: Expected string got: 2i")
    );
    assert_eq!(
        typ("a{si}").is_valid_value(&val("{a: 1, b: c}")),
        invalid("index 3: Expected int32 got: \"c\"")
    );
}

#[test]
fn dbus_argument_validate() {
    let t = typ("(si)");
    let good = val("(a, 1)");
    let bad = val("(a, b)");
    let checked = DBusArgument { dbus_type: &t, dbus_value: &good }.validate();
    assert!(checked.is_ok());
    let checked = checked.ok().unwrap();
    assert_eq!(checked.dbus_type, &t);
    assert_eq!(checked.dbus_value, &good);
    match (DBusArgument { dbus_type: &t, dbus_value: &bad }).validate() {
        Err(e) => {
            assert_eq!(e, DBusError::InvalidValue("index 1: Expected int32 got: \"b\"".into()));
            assert_eq!(e.message(), "index 1: Expected int32 got: \"b\"");
        }
        Ok(_) => panic!("a string passed for an int32"),
    }
    assert_eq!(DBusError::InvalidSignature.message(), "");
}

fn encode(sig: &str, literal: &str) -> Result<Option<WireArgument>, DBusError> {
    let t = typ(sig);
    let v = val(literal);
    DBusArgument { dbus_type: &t, dbus_value: &v }.encode()
}

#[test]
fn end_to_end_struct() {
    assert_eq!(
        encode("(si)", "(8i, \"some@string\")"),
        Err(DBusError::InvalidValue("index 0: Expected string got: 8i".into()))
    );
    assert_eq!(
        encode("(si)", "(\"some@string\", 8i)"),
        Ok(Some(WireArgument::Struct(vec![
            WireArgument::Str("some@string".into()),
            WireArgument::Int32(8),
        ])))
    );
    let t = typ("(is)");
    let v = val("(8i, \"some@string\")");
    let argument = DBusArgument { dbus_type: &t, dbus_value: &v }.validate().ok().unwrap();
    assert_eq!(
        argument.encode(),
        Ok(Some(WireArgument::Struct(vec![
            WireArgument::Int32(8),
            WireArgument::Str("some@string".into()),
        ])))
    );
}

#[test]
fn encode_scalars() {
    assert_eq!(encode("b", "true"), Ok(Some(WireArgument::Bool(true))));
    assert_eq!(encode("y", "ffy"), Ok(Some(WireArgument::Byte(255))));
    assert_eq!(encode("n", "-2n"), Ok(Some(WireArgument::Int16(-2))));
    assert_eq!(encode("i", "7"), Ok(Some(WireArgument::Int32(7))));
    assert_eq!(encode("x", "7x"), Ok(Some(WireArgument::Int64(7))));
    assert_eq!(encode("q", "7q"), Ok(Some(WireArgument::UInt16(7))));
    assert_eq!(encode("u", "7u"), Ok(Some(WireArgument::UInt32(7))));
    assert_eq!(encode("t", "7t"), Ok(Some(WireArgument::UInt64(7))));
    assert_eq!(encode("d", "-1.9d"), Ok(Some(WireArgument::Double("-1.9".into()))));
    assert_eq!(encode("s", "word"), Ok(Some(WireArgument::Str("word".into()))));
    assert_eq!(encode("o", "/a/b"), Ok(Some(WireArgument::ObjectPath("/a/b".into()))));
    assert_eq!(encode("g", "\"ai\""), Ok(Some(WireArgument::Signature("ai".into()))));
    assert_eq!(encode("h", "3u"), Ok(Some(WireArgument::UnixFd(3))));
}

#[test]
fn encode_array_carries_element_signature() {
    assert_eq!(
        encode("a(si)", "[(a, 1), (b, 2)]"),
        Ok(Some(WireArgument::Array(
            vec![
                WireArgument::Struct(vec![WireArgument::Str("a".into()), WireArgument::Int32(1)]),
                WireArgument::Struct(vec![WireArgument::Str("b".into()), WireArgument::Int32(2)]),
            ],
            "(si)".into()
        )))
    );
    assert_eq!(encode("aas", "[]"), Ok(Some(WireArgument::Array(vec![], "as".into()))));
}

#[test]
fn encode_dictionary_pairs_entries() {
    assert_eq!(
        encode("a{sai}", "{a: [1], b: [], c: [2, 3]}"),
        Ok(Some(WireArgument::Dict(
            vec![
                (
                    WireArgument::Str("a".into()),
                    WireArgument::Array(vec![WireArgument::Int32(1)], "i".into())
                ),
                (WireArgument::Str("b".into()), WireArgument::Array(vec![], "i".into())),
                (
                    WireArgument::Str("c".into()),
                    WireArgument::Array(
                        vec![WireArgument::Int32(2), WireArgument::Int32(3)],
                        "i".into()
                    )
                ),
            ],
            "s".into(),
            "ai".into()
        )))
    );
    assert_eq!(
        encode("a{si}", "{}"),
        Ok(Some(WireArgument::Dict(vec![], "s".into(), "i".into())))
    );
}

#[test]
fn encode_unit_gives_no_argument() {
    assert_eq!(encode("", ""), Ok(None));
}

#[test]
fn encode_refuses_what_validation_refuses() {
    assert_eq!(
        encode("ai", "[1, \"x\"]"),
        Err(DBusError::InvalidValue("index 1: Expected int32 got: \"x\"".into()))
    );
    assert_eq!(
        encode("i", "16n"),
        Err(DBusError::InvalidValue("Expected int32 got: 16n".into()))
    );
}

#[test]
fn encode_refuses_variants() {
    let refused = Err(DBusError::InvalidValue(
        "No wire form for a variant or a nested unit".into(),
    ));
    assert_eq!(encode("v", "1"), refused);
    assert_eq!(encode("(iv)", "(1, 2)"), refused);
    assert_eq!(encode("av", "[1]"), refused);
    assert_eq!(encode("av", "[]"), Ok(Some(WireArgument::Array(vec![], "v".into()))));
    let t = DBusType::Struct(vec![DBusType::Unit]);
    let v = DBusValue::Vec(vec![DBusValue::Unit]);
    assert_eq!(DBusArgument { dbus_type: &t, dbus_value: &v }.encode(), refused);
}

#[test]
fn encoding_twice_gives_equal_trees() {
    let t = typ("(sa{s(ib)}ay)");
    let v = val("(name, {a: (1, true), b: (2, false)}, [1y, 2y])");
    let argument = DBusArgument { dbus_type: &t, dbus_value: &v };
    let first = argument.encode();
    let second = argument.encode();
    assert!(first.is_ok());
    assert_eq!(first, second);
}

#[test]
fn call_items_are_the_fields() {
    let t = typ("(si)");
    let v = val("(a, 1)");
    assert_eq!(
        DBusArgument { dbus_type: &t, dbus_value: &v }.call_items(),
        Ok(vec![WireArgument::Str("a".into()), WireArgument::Int32(1)])
    );
    let t = typ("");
    let v = val("");
    assert_eq!(DBusArgument { dbus_type: &t, dbus_value: &v }.call_items(), Ok(vec![]));
    let t = typ("i");
    let v = val("1");
    assert_eq!(DBusArgument { dbus_type: &t, dbus_value: &v }.call_items(), Ok(vec![]));
    let t = typ("(si)");
    let v = val("(a)");
    assert_eq!(
        DBusArgument { dbus_type: &t, dbus_value: &v }.call_items(),
        Err(DBusError::InvalidValue("Wrong number of struct fields".into()))
    );
}

fn parameter(name: &str, typ: &str, direction: Option<&str>) -> MethodArgument {
    MethodArgument {
        name: name.to_string(),
        typ: typ.to_string(),
        direction: direction.map(|d| d.to_string()),
    }
}

#[test]
fn call_signature_joins_in_parameters() {
    let args = vec![
        parameter("a", "s", Some("in")),
        parameter("b", "u", Some("out")),
        parameter("c", "a{sv}", Some("in")),
        parameter("d", "i", None),
    ];
    assert_eq!(direction_signature(&args, "in"), "sa{sv}");
    assert_eq!(direction_signature(&args, "out"), "u");
    assert_eq!(call_signature(&args), "(sa{sv})");
    assert_eq!(
        call_type(&args),
        Ok(DBusType::Struct(vec![
            DBusType::String,
            DBusType::Dictionary {
                key_type: Box::new(DBusType::String),
                value_type: Box::new(DBusType::Variant)
            }
        ]))
    );
    assert!(args[0].has_direction("in"));
    assert!(!args[3].has_direction("in"));
}

#[test]
fn call_without_in_parameters_is_unit() {
    let args = vec![parameter("b", "u", Some("out"))];
    assert_eq!(call_signature(&args), "");
    assert_eq!(call_type(&args), Ok(DBusType::Unit));
    assert_eq!(call_type(&vec![]), Ok(DBusType::Unit));
}

#[test]
fn call_with_bad_parameter_type() {
    let args = vec![parameter("a", "z", Some("in"))];
    assert_eq!(call_type(&args), Err(DBusError::InvalidSignature));
}

#[test]
fn indentation_is_four_spaces_a_level() {
    assert_eq!(indented(0, "x"), "x");
    assert_eq!(indented(1, "name"), "    name");
    assert_eq!(indented(2, "name"), "        name");
}

#[test]
fn decimal_text_of_numbers() {
    assert_eq!(decimal(0), "0");
    assert_eq!(decimal(7), "7");
    assert_eq!(decimal(10), "10");
    assert_eq!(decimal(1234567890), "1234567890");
}

#[test]
fn chars_of_text() {
    assert_eq!(chars_of("a{é}"), vec!['a', '{', 'é', '}']);
    assert_eq!(chars_of(""), Vec::<char>::new());
}

#[test]
fn encode_conforming_pairs() {
    assert_eq!(
        encode_conforming(&typ("(ib)"), &val("(1, true)")),
        Some(WireArgument::Struct(vec![WireArgument::Int32(1), WireArgument::Bool(true)]))
    );
    assert_eq!(encode_conforming(&typ("v"), &val("1")), None);
    assert_eq!(encode_conforming(&typ(""), &val("")), None);
}

#[test]
fn parts_of_an_argument() {
    let argument = Argument::new(typ("(si)"), val("(a, 1)"));
    let parts = argument.parts();
    assert_eq!(parts.len(), 2);
    assert_eq!(parts[0].dbus_type, &DBusType::String);
    assert_eq!(parts[0].dbus_value, &DBusValue::String("a".into()));
    assert_eq!(parts[1].dbus_type, &DBusType::Int32);
    assert_eq!(parts[1].dbus_value, &DBusValue::Int32(1));

    let argument = Argument::new(typ("(si)"), val("(a, 1, 2)"));
    assert_eq!(argument.parts().len(), 2);
    let argument = Argument::new(typ("(si)"), val("(a)"));
    assert_eq!(argument.parts().len(), 1);

    let argument = Argument::new(typ("a{sy}"), val("{a: 1y, b: 2y}"));
    let parts = argument.parts();
    assert_eq!(parts.len(), 4);
    assert_eq!(parts[2].dbus_type, &DBusType::String);
    assert_eq!(parts[3].dbus_type, &DBusType::Byte);
    assert_eq!(parts[3].dbus_value, &DBusValue::Byte(2));

    let argument = Argument::new(typ("ai"), val("[1, 2, 3]"));
    assert_eq!(argument.parts().len(), 3);

    let argument = Argument::new(typ("i"), val("7"));
    let parts = argument.parts();
    assert_eq!(parts.len(), 1);
    assert_eq!(parts[0].dbus_type, &DBusType::Int32);
    assert_eq!(parts[0].dbus_value, &DBusValue::Int32(7));

    let argument = Argument::new(typ("i"), val("[7]"));
    let parts = argument.parts();
    assert_eq!(parts.len(), 1);
    assert_eq!(parts[0].dbus_value, &DBusValue::Vec(vec![DBusValue::Int32(7)]));
}
