use conjure_wire::enum_value::{EnumDefinition, EnumValue};
use conjure_wire::error::DecodeError;
use conjure_wire::json::JsonValue;
use conjure_wire::union_value::{decode_union, decode_union_entries, encode_union, Union, Unknown};

fn s(x: &str) -> String {
    x.to_string()
}

fn entries_of(v: JsonValue) -> Vec<(String, JsonValue)> {
    match v {
        JsonValue::Object(es) => es,
        _ => panic!("expected an object"),
    }
}

#[test]
fn union_decodes_type_first() {
    let es = vec![
        (s("type"), JsonValue::String(s("foo"))),
        (s("foo"), JsonValue::String(s("x"))),
    ];
    assert!(matches!(decode_union_entries(es), Ok(Union::Foo(v)) if v == "x"));
}

#[test]
fn union_decodes_payload_first() {
    let es = vec![
        (s("foo"), JsonValue::String(s("x"))),
        (s("type"), JsonValue::String(s("foo"))),
    ];
    assert!(matches!(decode_union_entries(es), Ok(Union::Foo(v)) if v == "x"));
}

#[test]
fn union_rejects_a_mismatched_payload_key() {
    let es = vec![
        (s("type"), JsonValue::String(s("foo"))),
        (s("bar"), JsonValue::String(s("x"))),
    ];
    assert!(matches!(
        decode_union_entries(es),
        Err(DecodeError::InvalidValue { found, expected }) if found == "bar" && expected == "foo"
    ));
}

#[test]
fn union_rejects_a_third_entry() {
    let es = vec![
        (s("type"), JsonValue::String(s("foo"))),
        (s("foo"), JsonValue::String(s("x"))),
        (s("foo"), JsonValue::String(s("y"))),
    ];
    assert!(matches!(
        decode_union_entries(es),
        Err(DecodeError::InvalidLength)
    ));
}

#[test]
fn union_rejects_a_lone_discriminant() {
    let es = vec![(s("type"), JsonValue::String(s("foo")))];
    assert!(matches!(
        decode_union_entries(es),
        Err(DecodeError::MissingField(k)) if k == "foo"
    ));
}

#[test]
fn union_rejects_an_empty_object() {
    assert!(matches!(
        decode_union_entries(Vec::new()),
        Err(DecodeError::MissingField(k)) if k == "type"
    ));
}

#[test]
fn union_round_trips_every_variant() {
    let foo = encode_union(Union::Foo(s("x")));
    assert!(matches!(decode_union_entries(entries_of(foo)), Ok(Union::Foo(v)) if v == "x"));

    let bar = encode_union(Union::Bar(-42));
    assert!(matches!(
        decode_union_entries(entries_of(bar)),
        Ok(Union::Bar(-42))
    ));

    let unk = encode_union(Union::Unknown(Unknown::new(
        s("quux"),
        JsonValue::Array(vec![JsonValue::Bool(true)]),
    )));
    match decode_union_entries(entries_of(unk)) {
        Ok(Union::Unknown(u)) => {
            assert_eq!(u.type_(), "quux");
            assert!(matches!(u.value(), JsonValue::Array(xs)
                if xs.len() == 1 && matches!(xs[0], JsonValue::Bool(true))));
        }
        other => panic!("unexpected decode: {:?}", other),
    }
}

#[test]
fn union_encodes_the_discriminant_entry_first() {
    let es = entries_of(encode_union(Union::Bar(5)));
    assert_eq!(es.len(), 2);
    assert_eq!(es[0].0, "type");
    assert!(matches!(&es[0].1, JsonValue::String(t) if t == "bar"));
    assert_eq!(es[1].0, "bar");
    assert!(matches!(&es[1].1, JsonValue::Number(t) if t == "5"));
}

#[test]
fn union_keeps_an_unknown_discriminant() {
    let es = vec![
        (s("type"), JsonValue::String(s("quux"))),
        (s("quux"), JsonValue::Number(s("1"))),
    ];
    match decode_union_entries(es) {
        Ok(Union::Unknown(u)) => assert_eq!(u.type_(), "quux"),
        other => panic!("unexpected decode: {:?}", other),
    }
}

fn two_value_enum(exhaustive: bool) -> EnumDefinition {
    EnumDefinition {
        values: vec![s("FOO"), s("BAR")],
        exhaustive,
    }
}

#[test]
fn enum_parses_a_declared_value() {
    let def = two_value_enum(false);
    assert_eq!(def.parse("BAR"), Ok(EnumValue::Known(1)));
    assert_eq!(def.value_str(&EnumValue::Known(1)), "BAR");
}

#[test]
fn enum_keeps_an_unknown_identifier_when_open() {
    let def = two_value_enum(false);
    let v = def.parse("baz").unwrap();
    assert_eq!(v, EnumValue::Unknown(s("baz")));
    assert_eq!(def.value_str(&v), "baz");
}

#[test]
fn enum_rejects_a_malformed_unknown_string() {
    let def = two_value_enum(false);
    assert!(matches!(
        def.parse("not an identifier!"),
        Err(DecodeError::UnknownVariant(v)) if v == "not an identifier!"
    ));
}

#[test]
fn enum_rejects_every_outsider_when_exhaustive() {
    let def = two_value_enum(true);
    assert_eq!(def.parse("FOO"), Ok(EnumValue::Known(0)));
    assert!(matches!(
        def.parse("baz"),
        Err(DecodeError::UnknownVariant(v)) if v == "baz"
    ));
}

#[test]
fn enum_round_trips_through_its_json_form() {
    let def = two_value_enum(false);
    for v in [EnumValue::Known(0), EnumValue::Unknown(s("baz"))] {
        let j = def.encode_json(&v);
        assert_eq!(def.decode_json(j), Ok(v));
    }
    assert!(matches!(
        def.decode_json(JsonValue::Number(s("3"))),
        Err(DecodeError::WrongType(t)) if t == "string"
    ));
}

#[test]
fn union_rejects_a_non_object_document() {
    assert!(matches!(
        decode_union(JsonValue::Number(s("3"))),
        Err(DecodeError::WrongType(t)) if t == "object"
    ));
    let v = encode_union(Union::Foo(s("x")));
    assert!(matches!(decode_union(v), Ok(Union::Foo(p)) if p == "x"));
}
