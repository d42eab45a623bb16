//! The tagged-union wire protocol.
//!
//! A union is exactly two object entries: a discriminant entry
//! `"type": <variant>` and a payload entry `<variant>: <payload>`, in
//! either order. Whichever comes first, the other must agree with it.
//! Unknown discriminants are kept, payload and all, for forward
//! compatibility.

use vstd::prelude::*;

verus! {

use crate::error::{DecodeError, ErrorModel};
use crate::json::{JsonModel, JsonValue};
use crate::text::{
    i32_token, lemma_dec_int_round_trip, parse_i32, spec_dec_int, spec_parse_i32, string_is,
};

/// A union with two declared variants and the synthetic unknown one.
#[derive(Debug)]
pub enum Union {
    Foo(String),
    Bar(i32),
    /// An unknown variant.
    Unknown(Unknown),
}

/// An unknown variant of the Union union.
#[derive(Debug)]
pub struct Unknown {
    type_: String,
    value: JsonValue,
}

impl Unknown {
    /// The discriminant, as a character sequence.
    pub closed spec fn spec_type(self) -> Seq<char> {
        self.type_@
    }

    /// The opaque payload.
    pub closed spec fn spec_value(self) -> JsonValue {
        self.value
    }

    /// Builds an unknown variant from its discriminant and its opaque
    /// payload.
    pub fn new(type_: String, value: JsonValue) -> (r: Unknown)
        ensures
            r.spec_type() == type_@,
            r.spec_value() == value,
    {
        Unknown { type_, value }
    }

    /// Returns the unknown variant's type name.
    pub fn type_(&self) -> (r: &str)
        ensures
            r@ == self.spec_type(),
    {
        self.type_.as_str()
    }

    /// Returns the unknown variant's payload.
    pub fn value(&self) -> (r: &JsonValue)
        ensures
            r == self.spec_value(),
    {
        &self.value
    }
}

/// The mathematical shape of a union value.
pub enum UnionModel {
    Foo(Seq<char>),
    Bar(i32),
    Unknown(Seq<char>, JsonModel),
}

impl Union {
    /// The mathematical shape of this value.
    pub open spec fn dv(self) -> UnionModel {
        match self {
            Union::Foo(s) => UnionModel::Foo(s@),
            Union::Bar(n) => UnionModel::Bar(n),
            Union::Unknown(u) => UnionModel::Unknown(u.spec_type(), u.spec_value().dv()),
        }
    }
}

/// A representable union value: an unknown discriminant never names a
/// declared variant.
pub open spec fn spec_union_wf(u: UnionModel) -> bool {
    match u {
        UnionModel::Unknown(t, _) => t != "foo"@ && t != "bar"@,
        _ => true,
    }
}

/// How a variant prints in error messages: declared variants by name,
/// unknown ones as a fixed placeholder.
pub open spec fn spec_variant_str(t: Seq<char>) -> Seq<char> {
    if t == "foo"@ || t == "bar"@ {
        t
    } else {
        "unknown variant"@
    }
}

/// The object entries encoding a union value: the discriminant entry
/// first, the payload entry second.
pub open spec fn spec_encode_union(u: UnionModel) -> Seq<(Seq<char>, JsonModel)> {
    match u {
        UnionModel::Foo(s) => seq![
            ("type"@, JsonModel::String("foo"@)),
            ("foo"@, JsonModel::String(s)),
        ],
        UnionModel::Bar(n) => seq![
            ("type"@, JsonModel::String("bar"@)),
            ("bar"@, JsonModel::Number(spec_dec_int(n as int))),
        ],
        UnionModel::Unknown(t, v) => seq![("type"@, JsonModel::String(t)), (t, v)],
    }
}

/// What decoding a declared variant's payload returns.
pub open spec fn spec_decode_payload(t: Seq<char>, v: JsonModel) -> Result<
    UnionModel,
    ErrorModel,
> {
    if t == "foo"@ {
        match v {
            JsonModel::String(s) => Ok(UnionModel::Foo(s)),
            _ => Err(ErrorModel::WrongType("string"@)),
        }
    } else if t == "bar"@ {
        match v {
            JsonModel::Number(tok) => match spec_parse_i32(tok) {
                Some(n) => Ok(UnionModel::Bar(n)),
                None => Err(ErrorModel::WrongType("i32"@)),
            },
            _ => Err(ErrorModel::WrongType("i32"@)),
        }
    } else {
        Ok(UnionModel::Unknown(t, v))
    }
}

/// What decoding a union from its object entries returns, for every
/// possible entry list: either order of the two entries is accepted,
/// disagreement between them is an invalid-value error, a lone
/// discriminant is a missing-field error, and a third entry is an
/// invalid-length error.
pub open spec fn spec_decode_union(es: Seq<(Seq<char>, JsonModel)>) -> Result<
    UnionModel,
    ErrorModel,
> {
    if es.len() == 0 {
        Err(ErrorModel::MissingField("type"@))
    } else {
        let k0 = es[0].0;
        let v0 = es[0].1;
        if k0 == "type"@ {
            // discriminant first
            match v0 {
                JsonModel::String(t) => {
                    if es.len() == 1 {
                        Err(ErrorModel::MissingField(spec_variant_str(t)))
                    } else {
                        let k1 = es[1].0;
                        let v1 = es[1].1;
                        let body = if k1 == t {
                            spec_decode_payload(t, v1)
                        } else if t == "foo"@ || t == "bar"@ || k1 == "foo"@ || k1 == "bar"@ {
                            Err(
                                ErrorModel::InvalidValue {
                                    found: spec_variant_str(k1),
                                    expected: spec_variant_str(t),
                                },
                            )
                        } else {
                            // two distinct unknown names print verbatim
                            Err(ErrorModel::InvalidValue { found: t, expected: k1 })
                        };
                        match body {
                            Ok(u) => if es.len() > 2 {
                                Err(ErrorModel::InvalidLength)
                            } else {
                                Ok(u)
                            },
                            Err(e) => Err(e),
                        }
                    }
                },
                _ => Err(ErrorModel::WrongType("string"@)),
            }
        } else {
            // payload first
            match spec_decode_payload(k0, v0) {
                Ok(u) => {
                    if es.len() == 1 {
                        Ok(u)
                    } else {
                        let k1 = es[1].0;
                        let v1 = es[1].1;
                        if k1 != "type"@ {
                            Err(ErrorModel::InvalidValue { found: k1, expected: "type field"@ })
                        } else {
                            match v1 {
                                JsonModel::String(t) => {
                                    if t == k0 {
                                        if es.len() > 2 {
                                            Err(ErrorModel::InvalidLength)
                                        } else {
                                            Ok(u)
                                        }
                                    } else {
                                        Err(
                                            ErrorModel::InvalidValue {
                                                found: spec_variant_str(t),
                                                expected: spec_variant_str(k0),
                                            },
                                        )
                                    }
                                },
                                _ => Err(ErrorModel::WrongType("string"@)),
                            }
                        }
                    }
                },
                Err(e) => Err(e),
            }
        }
    }
}

/// Encodes a union value as its two object entries, discriminant first.
pub fn encode_union(u: Union) -> (r: JsonValue)
    ensures
        r matches JsonValue::Object(es) && crate::codec::entries_dv(es@) == spec_encode_union(
            u.dv(),
        ),
{
    let ghost gu = u.dv();
    let mut es: Vec<(String, JsonValue)> = Vec::new();
    match u {
        Union::Foo(s) => {
            es.push(
                (String::from_str("type"), JsonValue::String(String::from_str("foo"))),
            );
            es.push((String::from_str("foo"), JsonValue::String(s)));
        },
        Union::Bar(n) => {
            es.push(
                (String::from_str("type"), JsonValue::String(String::from_str("bar"))),
            );
            es.push((String::from_str("bar"), JsonValue::Number(i32_token(n))));
        },
        Union::Unknown(unk) => {
            let Unknown { type_, value } = unk;
            let tc = type_.clone();
            es.push((String::from_str("type"), JsonValue::String(tc)));
            es.push((type_, value));
        },
    }
    proof {
        assert(crate::codec::entries_dv(es@) =~= spec_encode_union(gu));
    }
    JsonValue::Object(es)
}

/// How a variant prints in error messages.
fn variant_str(t: &String) -> (r: String)
    ensures
        r@ == spec_variant_str(t@),
{
    if string_is(t, "foo") || string_is(t, "bar") {
        t.clone()
    } else {
        String::from_str("unknown variant")
    }
}

/// Decodes a declared variant's payload, or keeps an unknown one.
fn decode_payload(t: String, v: JsonValue) -> (r: Result<Union, DecodeError>)
    ensures
        match r {
            Ok(u) => spec_decode_payload(t@, v.dv()) == Ok::<UnionModel, ErrorModel>(u.dv()),
            Err(e) => spec_decode_payload(t@, v.dv()) == Err::<UnionModel, ErrorModel>(e.dv()),
        },
{
    if string_is(&t, "foo") {
        match v {
            JsonValue::String(s) => Ok(Union::Foo(s)),
            _ => Err(DecodeError::WrongType(String::from_str("string"))),
        }
    } else if string_is(&t, "bar") {
        match v {
            JsonValue::Number(tok) => match parse_i32(tok.as_str()) {
                Some(n) => Ok(Union::Bar(n)),
                None => Err(DecodeError::WrongType(String::from_str("i32"))),
            },
            _ => Err(DecodeError::WrongType(String::from_str("i32"))),
        }
    } else {
        Ok(Union::Unknown(Unknown { type_: t, value: v }))
    }
}

/// Every representable union value survives an encode-decode round
/// trip, the unknown variant included.
pub proof fn lemma_union_round_trip(u: UnionModel)
    requires
        spec_union_wf(u),
    ensures
        spec_decode_union(spec_encode_union(u)) == Ok::<UnionModel, ErrorModel>(u),
{
    reveal_strlit("foo");
    reveal_strlit("bar");
    assert("foo"@[0] == 'f' && "bar"@[0] == 'b');
    let es = spec_encode_union(u);
    assert(es.len() == 2);
    match u {
        UnionModel::Foo(s) => {
            assert(es[0] == ("type"@, JsonModel::String("foo"@)));
            assert(es[1] == ("foo"@, JsonModel::String(s)));
        },
        UnionModel::Bar(n) => {
            lemma_dec_int_round_trip(n);
            assert(es[0] == ("type"@, JsonModel::String("bar"@)));
            assert(es[1] == ("bar"@, JsonModel::Number(spec_dec_int(n as int))));
        },
        UnionModel::Unknown(t, v) => {
            assert(es[0] == ("type"@, JsonModel::String(t)));
            assert(es[1] == (t, v));
        },
    }
}

/// The two entries of an encoded union decode to the same value in
/// either order: the payload entry may come first. An unknown variant
/// whose discriminant is the literal key `type` only decodes in
/// discriminant-first order, since its payload key is indistinguishable
/// from the discriminant key.
pub proof fn lemma_union_payload_first(u: UnionModel)
    requires
        spec_union_wf(u),
        u matches UnionModel::Unknown(t, _) ==> t != "type"@,
    ensures
        spec_decode_union(
            seq![spec_encode_union(u)[1], spec_encode_union(u)[0]],
        ) == Ok::<UnionModel, ErrorModel>(u),
{
    reveal_strlit("type");
    reveal_strlit("foo");
    reveal_strlit("bar");
    assert("foo"@.len() == 3 && "bar"@.len() == 3 && "type"@.len() == 4);
    assert("foo"@[0] == 'f' && "bar"@[0] == 'b');
    let es = spec_encode_union(u);
    let sw = seq![es[1], es[0]];
    assert(sw.len() == 2 && sw[0] == es[1] && sw[1] == es[0]);
    match u {
        UnionModel::Foo(s) => {
            assert(es[0] == ("type"@, JsonModel::String("foo"@)));
            assert(es[1] == ("foo"@, JsonModel::String(s)));
        },
        UnionModel::Bar(n) => {
            lemma_dec_int_round_trip(n);
            assert(es[0] == ("type"@, JsonModel::String("bar"@)));
            assert(es[1] == ("bar"@, JsonModel::Number(spec_dec_int(n as int))));
        },
        UnionModel::Unknown(t, v) => {
            assert(es[0] == ("type"@, JsonModel::String(t)));
            assert(es[1] == (t, v));
        },
    }
}

/// Decodes a union from its JSON form, which must be an object.
pub fn decode_union(v: JsonValue) -> (r: Result<Union, DecodeError>)
    ensures
        match v {
            JsonValue::Object(es) => match r {
                Ok(u) => spec_decode_union(crate::codec::entries_dv(es@)) == Ok::<
                    UnionModel,
                    ErrorModel,
                >(u.dv()),
                Err(e) => spec_decode_union(crate::codec::entries_dv(es@)) == Err::<
                    UnionModel,
                    ErrorModel,
                >(e.dv()),
            },
            _ => r matches Err(e) && e.dv() == ErrorModel::WrongType("object"@),
        },
{
    match v {
        JsonValue::Object(es) => decode_union_entries(es),
        _ => Err(DecodeError::WrongType(String::from_str("object"))),
    }
}

/// Decodes a union from the entries of its JSON object.
pub fn decode_union_entries(es: Vec<(String, JsonValue)>) -> (r: Result<Union, DecodeError>)
    ensures
        match r {
            Ok(u) => spec_decode_union(crate::codec::entries_dv(es@)) == Ok::<
                UnionModel,
                ErrorModel,
            >(u.dv()),
            Err(e) => spec_decode_union(crate::codec::entries_dv(es@)) == Err::<
                UnionModel,
                ErrorModel,
            >(e.dv()),
        },
{
    let ghost ges = crate::codec::entries_dv(es@);
    let n = es.len();
    let mut es = es;
    if n == 0 {
        return Err(DecodeError::MissingField(String::from_str("type")));
    }
    let (k0, v0) = es.remove(0);
    proof {
        assert(ges[0] == (k0@, v0.dv()));
    }
    if string_is(&k0, "type") {
        // discriminant first
        match v0 {
            JsonValue::String(t) => {
                if n == 1 {
                    return Err(DecodeError::MissingField(variant_str(&t)));
                }
                let (k1, v1) = es.remove(0);
                proof {
                    assert(ges[1] == (k1@, v1.dv()));
                }
                let body: Result<Union, DecodeError> = if k1 == t {
                    decode_payload(t, v1)
                } else if string_is(&t, "foo") || string_is(&t, "bar") || string_is(&k1, "foo")
                    || string_is(&k1, "bar") {
                    Err(
                        DecodeError::InvalidValue {
                            found: variant_str(&k1),
                            expected: variant_str(&t),
                        },
                    )
                } else {
                    Err(DecodeError::InvalidValue { found: t, expected: k1 })
                };
                match body {
                    Ok(u) => {
                        if n > 2 {
                            Err(DecodeError::InvalidLength)
                        } else {
                            Ok(u)
                        }
                    },
                    Err(e) => Err(e),
                }
            },
            _ => Err(DecodeError::WrongType(String::from_str("string"))),
        }
    } else {
        // payload first
        let k0c = k0.clone();
        match decode_payload(k0, v0) {
            Ok(u) => {
                if n == 1 {
                    return Ok(u);
                }
                let (k1, v1) = es.remove(0);
                proof {
                    assert(ges[1] == (k1@, v1.dv()));
                }
                if !string_is(&k1, "type") {
                    return Err(
                        DecodeError::InvalidValue {
                            found: k1,
                            expected: String::from_str("type field"),
                        },
                    );
                }
                match v1 {
                    JsonValue::String(t) => {
                        if t == k0c {
                            if n > 2 {
                                Err(DecodeError::InvalidLength)
                            } else {
                                Ok(u)
                            }
                        } else {
                            Err(
                                DecodeError::InvalidValue {
                                    found: variant_str(&t),
                                    expected: variant_str(&k0c),
                                },
                            )
                        }
                    },
                    _ => Err(DecodeError::WrongType(String::from_str("string"))),
                }
            },
            Err(e) => Err(e),
        }
    }
}

} // verus!
