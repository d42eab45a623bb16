use conjure_wire::b64::{b64_decode, b64_encode};
use conjure_wire::codec::{
    decode_bytes, decode_double, decode_record, encode_bytes, encode_double, DoubleValue,
};
use conjure_wire::error::DecodeError;
use conjure_wire::json::JsonValue;
use conjure_wire::text::{i32_token, parse_i32, valid_variant};

fn s(x: &str) -> String {
    x.to_string()
}

#[test]
fn base64_encodes_one_two_three() {
    assert_eq!(b64_encode(&vec![1u8, 2, 3]), "AQID");
}

#[test]
fn base64_decodes_one_two_three() {
    assert_eq!(b64_decode("AQID"), Some(vec![1u8, 2, 3]));
}

#[test]
fn base64_round_trips_all_tail_shapes() {
    for bytes in [
        vec![],
        vec![0u8],
        vec![255u8, 0],
        vec![1u8, 2, 3, 4],
        vec![1u8, 2, 3, 4, 5],
        b"foobar".to_vec(),
    ] {
        let text = b64_encode(&bytes);
        assert_eq!(b64_decode(&text), Some(bytes));
    }
}

#[test]
fn base64_encodes_foobar() {
    assert_eq!(b64_encode(&b"foobar".to_vec()), "Zm9vYmFy");
}

#[test]
fn base64_rejects_bad_input() {
    // not a multiple of four characters
    assert_eq!(b64_decode("AQIDa"), None);
    // an alphabet outsider
    assert_eq!(b64_decode("AQI!"), None);
    // padding in the middle
    assert_eq!(b64_decode("A=ID"), None);
    // non-zero padding bits: only canonical encodings decode
    assert_eq!(b64_decode("AQJ="), None);
}

#[test]
fn double_decodes_the_three_special_strings() {
    assert_eq!(
        decode_double(JsonValue::String(s("NaN"))),
        Ok(DoubleValue::Nan)
    );
    assert_eq!(
        decode_double(JsonValue::String(s("Infinity"))),
        Ok(DoubleValue::Infinity)
    );
    assert_eq!(
        decode_double(JsonValue::String(s("-Infinity"))),
        Ok(DoubleValue::NegInfinity)
    );
}

#[test]
fn double_rejects_other_strings() {
    assert_eq!(
        decode_double(JsonValue::String(s("fast"))),
        Err(DecodeError::InvalidFloat)
    );
}

#[test]
fn double_encodes_non_finite_values_as_exactly_those_strings() {
    assert!(matches!(encode_double(DoubleValue::Nan), JsonValue::String(t) if t == "NaN"));
    assert!(matches!(encode_double(DoubleValue::Infinity), JsonValue::String(t) if t == "Infinity"));
    assert!(
        matches!(encode_double(DoubleValue::NegInfinity), JsonValue::String(t) if t == "-Infinity")
    );
}

#[test]
fn double_round_trips_a_numeric_token() {
    let v = decode_double(JsonValue::Number(s("3.25"))).unwrap();
    assert_eq!(v, DoubleValue::Finite(s("3.25")));
    assert!(matches!(encode_double(v), JsonValue::Number(t) if t == "3.25"));
}

#[test]
fn bytes_decode_from_base64_string() {
    assert_eq!(
        decode_bytes(JsonValue::String(s("AQID"))),
        Ok(vec![1u8, 2, 3])
    );
}

#[test]
fn bytes_encode_to_base64_string() {
    assert!(matches!(encode_bytes(&vec![1u8, 2, 3]), JsonValue::String(t) if t == "AQID"));
}

#[test]
fn bytes_reject_a_string_that_is_not_base64() {
    assert_eq!(
        decode_bytes(JsonValue::String(s("no!"))),
        Err(DecodeError::InvalidBase64)
    );
    assert_eq!(
        decode_bytes(JsonValue::Number(s("3"))),
        Err(DecodeError::WrongType(s("binary")))
    );
}

#[test]
fn record_rejects_an_unknown_field_naming_it() {
    let entries = vec![
        (s("knownField"), JsonValue::Number(s("1"))),
        (s("extra"), JsonValue::Number(s("2"))),
    ];
    let fields = vec![s("knownField")];
    assert!(matches!(
        decode_record(entries, &fields),
        Err(DecodeError::UnknownField(k)) if k == "extra"
    ));
}

#[test]
fn record_hands_back_one_value_per_field() {
    let entries = vec![(s("b"), JsonValue::Bool(true))];
    let fields = vec![s("a"), s("b")];
    let vals = decode_record(entries, &fields).unwrap();
    assert_eq!(vals.len(), 2);
    assert!(vals[0].is_none());
    assert!(matches!(vals[1], Some(JsonValue::Bool(true))));
}

#[test]
fn record_lets_the_last_occurrence_of_a_key_win() {
    let entries = vec![
        (s("a"), JsonValue::Number(s("1"))),
        (s("a"), JsonValue::Number(s("2"))),
    ];
    let fields = vec![s("a")];
    let vals = decode_record(entries, &fields).unwrap();
    assert!(matches!(&vals[0], Some(JsonValue::Number(t)) if t == "2"));
}

#[test]
fn integer_tokens_round_trip() {
    for n in [0i32, 7, -1, 2147483647, -2147483648] {
        let t = i32_token(n);
        assert_eq!(parse_i32(&t), Some(n));
    }
    assert_eq!(i32_token(-17), "-17");
    assert_eq!(parse_i32("x"), None);
    assert_eq!(parse_i32(""), None);
    assert_eq!(parse_i32("2147483648"), None);
}

#[test]
fn variant_allow_list_accepts_identifiers_only() {
    assert!(valid_variant("baz"));
    assert!(valid_variant("BAZ_2"));
    assert!(!valid_variant(""));
    assert!(!valid_variant("not valid"));
    assert!(!valid_variant("nope!"));
}

#[test]
fn error_messages_name_the_offender() {
    assert_eq!(
        DecodeError::UnknownField(s("extra")).message(),
        "unknown field extra"
    );
    assert_eq!(
        DecodeError::InvalidValue {
            found: s("bar"),
            expected: s("foo"),
        }
        .message(),
        "invalid value: found bar, expected foo"
    );
    assert_eq!(DecodeError::InvalidBase64.message(), "invalid base64");
}
