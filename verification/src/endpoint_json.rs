//! The JSON form of the definition model: a fixed-shape record with
//! skip predicates on encode and strict fields on decode.

use vstd::prelude::*;

verus! {

use crate::endpoint::{ArgumentDefinition, AuthType, EndpointDefinition, HttpMethod, ParameterType, PrimitiveKind, Type};
use crate::codec::{decode_record, spec_decode_record, spec_field_index, spec_field_value, spec_first_unknown, lemma_field_index_found, lemma_field_value_absent, lemma_field_value_determined, lemma_first_unknown_none};
use crate::error::{DecodeError, ErrorModel};
use crate::json::{JsonModel, JsonValue};
use crate::text::string_is;

/// The mathematical shape of a wire type.
pub enum TypeModel {
    Primitive(PrimitiveKind),
    Optional(Box<TypeModel>),
    List(Box<TypeModel>),
    SetOf(Box<TypeModel>),
    MapOf(Box<TypeModel>, Box<TypeModel>),
    Reference(Seq<char>),
}

impl Type {
    /// The mathematical shape of this type.
    pub open spec fn dv(self) -> TypeModel
        decreases self,
    {
        match self {
            Type::Primitive(k) => TypeModel::Primitive(k),
            Type::Optional(inner) => TypeModel::Optional(Box::new(inner.dv())),
            Type::List(inner) => TypeModel::List(Box::new(inner.dv())),
            Type::SetOf(inner) => TypeModel::SetOf(Box::new(inner.dv())),
            Type::MapOf(k, v) => TypeModel::MapOf(Box::new(k.dv()), Box::new(v.dv())),
            Type::Reference(name) => TypeModel::Reference(name@),
        }
    }
}

/// The mathematical shape of an authentication choice.
pub enum AuthModel {
    Header,
    Cookie(Seq<char>),
}

impl AuthType {
    /// The mathematical shape of this value.
    pub open spec fn dv(self) -> AuthModel {
        match self {
            AuthType::Header => AuthModel::Header,
            AuthType::Cookie(name) => AuthModel::Cookie(name@),
        }
    }
}

/// The mathematical shape of a parameter kind.
pub enum ParamModel {
    Body,
    Path,
    Query(Seq<char>),
    Header(Seq<char>),
}

impl ParameterType {
    /// The mathematical shape of this value.
    pub open spec fn dv(self) -> ParamModel {
        match self {
            ParameterType::Body => ParamModel::Body,
            ParameterType::Path => ParamModel::Path,
            ParameterType::Query(id) => ParamModel::Query(id@),
            ParameterType::Header(id) => ParamModel::Header(id@),
        }
    }
}

/// The mathematical shape of an argument.
pub struct ArgModel {
    pub arg_name: Seq<char>,
    pub type_: TypeModel,
    pub param_type: ParamModel,
}

impl ArgumentDefinition {
    /// The mathematical shape of this argument.
    pub open spec fn dv(self) -> ArgModel {
        ArgModel { arg_name: self.arg_name@, type_: self.type_.dv(), param_type: self.param_type.dv() }
    }
}

/// The wire name of a primitive type.
pub open spec fn spec_prim_name(k: PrimitiveKind) -> Seq<char> {
    match k {
        PrimitiveKind::Text => "string"@,
        PrimitiveKind::Integer => "integer"@,
        PrimitiveKind::Double => "double"@,
        PrimitiveKind::Boolean => "boolean"@,
        PrimitiveKind::Safelong => "safelong"@,
        PrimitiveKind::Binary => "binary"@,
        PrimitiveKind::Any => "any"@,
        PrimitiveKind::Uuid => "uuid"@,
        PrimitiveKind::Rid => "rid"@,
        PrimitiveKind::Bearertoken => "bearertoken"@,
        PrimitiveKind::Datetime => "datetime"@,
    }
}

/// The primitive type a wire name denotes, if any.
pub open spec fn spec_prim_parse(s: Seq<char>) -> Option<PrimitiveKind> {
    if s == "string"@ {
        Some(PrimitiveKind::Text)
    } else if s == "integer"@ {
        Some(PrimitiveKind::Integer)
    } else if s == "double"@ {
        Some(PrimitiveKind::Double)
    } else if s == "boolean"@ {
        Some(PrimitiveKind::Boolean)
    } else if s == "safelong"@ {
        Some(PrimitiveKind::Safelong)
    } else if s == "binary"@ {
        Some(PrimitiveKind::Binary)
    } else if s == "any"@ {
        Some(PrimitiveKind::Any)
    } else if s == "uuid"@ {
        Some(PrimitiveKind::Uuid)
    } else if s == "rid"@ {
        Some(PrimitiveKind::Rid)
    } else if s == "bearertoken"@ {
        Some(PrimitiveKind::Bearertoken)
    } else if s == "datetime"@ {
        Some(PrimitiveKind::Datetime)
    } else {
        None
    }
}

/// Makes the primitive wire names distinguishable to the prover.
pub(crate) proof fn reveal_prim_names()
    ensures
        "string"@.len() == 6 && "string"@[0] == 's',
        "integer"@.len() == 7 && "integer"@[0] == 'i',
        "double"@.len() == 6 && "double"@[0] == 'd',
        "boolean"@.len() == 7 && "boolean"@[0] == 'b',
        "safelong"@.len() == 8 && "safelong"@[0] == 's',
        "binary"@.len() == 6 && "binary"@[0] == 'b',
        "any"@.len() == 3 && "any"@[0] == 'a',
        "uuid"@.len() == 4 && "uuid"@[0] == 'u',
        "rid"@.len() == 3 && "rid"@[0] == 'r',
        "bearertoken"@.len() == 11 && "bearertoken"@[0] == 'b',
        "datetime"@.len() == 8 && "datetime"@[0] == 'd',
{
    reveal_strlit("string");
    reveal_strlit("integer");
    reveal_strlit("double");
    reveal_strlit("boolean");
    reveal_strlit("safelong");
    reveal_strlit("binary");
    reveal_strlit("any");
    reveal_strlit("uuid");
    reveal_strlit("rid");
    reveal_strlit("bearertoken");
    reveal_strlit("datetime");
}

/// A primitive's wire name parses back to that primitive.
pub proof fn lemma_prim_round_trip(k: PrimitiveKind)
    ensures
        spec_prim_parse(spec_prim_name(k)) == Some(k),
{
    reveal_prim_names();
}

/// The wire name of a primitive type.
fn prim_name(k: PrimitiveKind) -> (r: String)
    ensures
        r@ == spec_prim_name(k),
{
    match k {
        PrimitiveKind::Text => String::from_str("string"),
        PrimitiveKind::Integer => String::from_str("integer"),
        PrimitiveKind::Double => String::from_str("double"),
        PrimitiveKind::Boolean => String::from_str("boolean"),
        PrimitiveKind::Safelong => String::from_str("safelong"),
        PrimitiveKind::Binary => String::from_str("binary"),
        PrimitiveKind::Any => String::from_str("any"),
        PrimitiveKind::Uuid => String::from_str("uuid"),
        PrimitiveKind::Rid => String::from_str("rid"),
        PrimitiveKind::Bearertoken => String::from_str("bearertoken"),
        PrimitiveKind::Datetime => String::from_str("datetime"),
    }
}

/// The primitive a wire name denotes, if any.
fn prim_parse(s: &String) -> (r: Option<PrimitiveKind>)
    ensures
        r == spec_prim_parse(s@),
{
    if string_is(s, "string") {
        Some(PrimitiveKind::Text)
    } else if string_is(s, "integer") {
        Some(PrimitiveKind::Integer)
    } else if string_is(s, "double") {
        Some(PrimitiveKind::Double)
    } else if string_is(s, "boolean") {
        Some(PrimitiveKind::Boolean)
    } else if string_is(s, "safelong") {
        Some(PrimitiveKind::Safelong)
    } else if string_is(s, "binary") {
        Some(PrimitiveKind::Binary)
    } else if string_is(s, "any") {
        Some(PrimitiveKind::Any)
    } else if string_is(s, "uuid") {
        Some(PrimitiveKind::Uuid)
    } else if string_is(s, "rid") {
        Some(PrimitiveKind::Rid)
    } else if string_is(s, "bearertoken") {
        Some(PrimitiveKind::Bearertoken)
    } else if string_is(s, "datetime") {
        Some(PrimitiveKind::Datetime)
    } else {
        None
    }
}

/// The wire name of an HTTP method.
pub open spec fn spec_method_name(m: HttpMethod) -> Seq<char> {
    match m {
        HttpMethod::Get => "GET"@,
        HttpMethod::Post => "POST"@,
        HttpMethod::Put => "PUT"@,
        HttpMethod::Delete => "DELETE"@,
    }
}

/// The HTTP method a wire name denotes, if any.
pub open spec fn spec_method_parse(s: Seq<char>) -> Option<HttpMethod> {
    if s == "GET"@ {
        Some(HttpMethod::Get)
    } else if s == "POST"@ {
        Some(HttpMethod::Post)
    } else if s == "PUT"@ {
        Some(HttpMethod::Put)
    } else if s == "DELETE"@ {
        Some(HttpMethod::Delete)
    } else {
        None
    }
}

/// A method's wire name parses back to that method.
pub proof fn lemma_method_round_trip(m: HttpMethod)
    ensures
        spec_method_parse(spec_method_name(m)) == Some(m),
{
    reveal_strlit("GET");
    reveal_strlit("POST");
    reveal_strlit("PUT");
    reveal_strlit("DELETE");
    assert("GET"@.len() == 3 && "POST"@.len() == 4 && "PUT"@.len() == 3 && "DELETE"@.len() == 6);
    assert("GET"@[0] == 'G' && "PUT"@[0] == 'P');
}

/// The wire name of an HTTP method.
pub fn method_name(m: &HttpMethod) -> (r: String)
    ensures
        r@ == spec_method_name(*m),
{
    match m {
        HttpMethod::Get => String::from_str("GET"),
        HttpMethod::Post => String::from_str("POST"),
        HttpMethod::Put => String::from_str("PUT"),
        HttpMethod::Delete => String::from_str("DELETE"),
    }
}

/// The HTTP method a wire name denotes, if any.
pub fn method_parse(s: &String) -> (r: Option<HttpMethod>)
    ensures
        r == spec_method_parse(s@),
{
    if string_is(s, "GET") {
        Some(HttpMethod::Get)
    } else if string_is(s, "POST") {
        Some(HttpMethod::Post)
    } else if string_is(s, "PUT") {
        Some(HttpMethod::Put)
    } else if string_is(s, "DELETE") {
        Some(HttpMethod::Delete)
    } else {
        None
    }
}

/// The JSON form of a wire type: primitives as their names, containers
/// as one-entry objects, map element types as a two-element array.
pub open spec fn spec_type_json(t: TypeModel) -> JsonModel
    decreases t,
{
    match t {
        TypeModel::Primitive(k) => JsonModel::String(spec_prim_name(k)),
        TypeModel::Optional(inner) => JsonModel::Object(
            seq![("optional"@, spec_type_json(*inner))],
        ),
        TypeModel::List(inner) => JsonModel::Object(seq![("list"@, spec_type_json(*inner))]),
        TypeModel::SetOf(inner) => JsonModel::Object(seq![("set"@, spec_type_json(*inner))]),
        TypeModel::MapOf(k, v) => JsonModel::Object(
            seq![
                ("map"@, JsonModel::Array(seq![spec_type_json(*k), spec_type_json(*v)])),
            ],
        ),
        TypeModel::Reference(name) => JsonModel::Object(
            seq![("reference"@, JsonModel::String(name))],
        ),
    }
}

/// What parsing a wire type returns, for every JSON shape.
pub open spec fn spec_type_parse(m: JsonModel) -> Result<TypeModel, ErrorModel>
    decreases m,
{
    match m {
        JsonModel::String(s) => match spec_prim_parse(s) {
            Some(k) => Ok(TypeModel::Primitive(k)),
            None => Err(ErrorModel::InvalidValue { found: s, expected: "a type name"@ }),
        },
        JsonModel::Object(es) => {
            if es.len() != 1 {
                Err(ErrorModel::InvalidLength)
            } else {
                let k = es[0].0;
                let v = es[0].1;
                if k == "optional"@ {
                    match spec_type_parse(v) {
                        Ok(t) => Ok(TypeModel::Optional(Box::new(t))),
                        Err(e) => Err(e),
                    }
                } else if k == "list"@ {
                    match spec_type_parse(v) {
                        Ok(t) => Ok(TypeModel::List(Box::new(t))),
                        Err(e) => Err(e),
                    }
                } else if k == "set"@ {
                    match spec_type_parse(v) {
                        Ok(t) => Ok(TypeModel::SetOf(Box::new(t))),
                        Err(e) => Err(e),
                    }
                } else if k == "map"@ {
                    match v {
                        JsonModel::Array(xs) => {
                            if xs.len() != 2 {
                                Err(ErrorModel::InvalidLength)
                            } else {
                                match (spec_type_parse(xs[0]), spec_type_parse(xs[1])) {
                                    (Ok(tk), Ok(tv)) => Ok(
                                        TypeModel::MapOf(Box::new(tk), Box::new(tv)),
                                    ),
                                    (Err(e), _) => Err(e),
                                    (_, Err(e)) => Err(e),
                                }
                            }
                        },
                        _ => Err(ErrorModel::WrongType("array"@)),
                    }
                } else if k == "reference"@ {
                    match v {
                        JsonModel::String(s) => Ok(TypeModel::Reference(s)),
                        _ => Err(ErrorModel::WrongType("string"@)),
                    }
                } else {
                    Err(ErrorModel::UnknownField(k))
                }
            }
        },
        _ => Err(ErrorModel::WrongType("type"@)),
    }
}

/// Makes the container key names distinguishable to the prover.
pub(crate) proof fn reveal_type_keys()
    ensures
        "optional"@.len() == 8,
        "list"@.len() == 4,
        "set"@.len() == 3 && "set"@[0] == 's',
        "map"@.len() == 3 && "map"@[0] == 'm',
        "reference"@.len() == 9,
{
    reveal_strlit("optional");
    reveal_strlit("list");
    reveal_strlit("set");
    reveal_strlit("map");
    reveal_strlit("reference");
}

/// Every wire type survives an encode-parse round trip.
pub proof fn lemma_type_round_trip(t: TypeModel)
    ensures
        spec_type_parse(spec_type_json(t)) == Ok::<TypeModel, ErrorModel>(t),
    decreases t,
{
    reveal_type_keys();
    match t {
        TypeModel::Primitive(k) => {
            lemma_prim_round_trip(k);
        },
        TypeModel::Optional(inner) => {
            lemma_type_round_trip(*inner);
            let es = seq![("optional"@, spec_type_json(*inner))];
            assert(es[0].0 == "optional"@ && es[0].1 == spec_type_json(*inner));
        },
        TypeModel::List(inner) => {
            lemma_type_round_trip(*inner);
            let es = seq![("list"@, spec_type_json(*inner))];
            assert(es[0].0 == "list"@ && es[0].1 == spec_type_json(*inner));
        },
        TypeModel::SetOf(inner) => {
            lemma_type_round_trip(*inner);
            let es = seq![("set"@, spec_type_json(*inner))];
            assert(es[0].0 == "set"@ && es[0].1 == spec_type_json(*inner));
        },
        TypeModel::MapOf(k, v) => {
            lemma_type_round_trip(*k);
            lemma_type_round_trip(*v);
            let xs = seq![spec_type_json(*k), spec_type_json(*v)];
            let es = seq![("map"@, JsonModel::Array(xs))];
            assert(es[0].0 == "map"@ && es[0].1 == JsonModel::Array(xs));
            assert(xs.len() == 2 && xs[0] == spec_type_json(*k) && xs[1] == spec_type_json(*v));
        },
        TypeModel::Reference(name) => {
            let es = seq![("reference"@, JsonModel::String(name))];
            assert(es[0].0 == "reference"@ && es[0].1 == JsonModel::String(name));
        },
    }
}

/// Encodes a wire type as its JSON form.
pub fn type_to_json(t: &Type) -> (r: JsonValue)
    ensures
        r.dv() == spec_type_json(t.dv()),
    decreases *t,
{
    match t {
        Type::Primitive(k) => {
            JsonValue::String(prim_name(*k))
        },
        Type::Optional(inner) => {
            let mut es: Vec<(String, JsonValue)> = Vec::new();
            es.push((String::from_str("optional"), type_to_json(inner)));
            let r = JsonValue::Object(es);
            proof {
                assert(r.dv() matches JsonModel::Object(ges) && ges =~= seq![
                    ("optional"@, spec_type_json(inner.dv())),
                ]);
            }
            r
        },
        Type::List(inner) => {
            let mut es: Vec<(String, JsonValue)> = Vec::new();
            es.push((String::from_str("list"), type_to_json(inner)));
            let r = JsonValue::Object(es);
            proof {
                assert(r.dv() matches JsonModel::Object(ges) && ges =~= seq![
                    ("list"@, spec_type_json(inner.dv())),
                ]);
            }
            r
        },
        Type::SetOf(inner) => {
            let mut es: Vec<(String, JsonValue)> = Vec::new();
            es.push((String::from_str("set"), type_to_json(inner)));
            let r = JsonValue::Object(es);
            proof {
                assert(r.dv() matches JsonModel::Object(ges) && ges =~= seq![
                    ("set"@, spec_type_json(inner.dv())),
                ]);
            }
            r
        },
        Type::MapOf(tk, tv) => {
            let mut xs: Vec<JsonValue> = Vec::new();
            xs.push(type_to_json(tk));
            xs.push(type_to_json(tv));
            let arr = JsonValue::Array(xs);
            proof {
                assert(arr.dv() matches JsonModel::Array(gxs) && gxs =~= seq![
                    spec_type_json(tk.dv()),
                    spec_type_json(tv.dv()),
                ]);
            }
            let mut es: Vec<(String, JsonValue)> = Vec::new();
            es.push((String::from_str("map"), arr));
            let r = JsonValue::Object(es);
            proof {
                assert(r.dv() matches JsonModel::Object(ges) && ges =~= seq![
                    (
                        "map"@,
                        JsonModel::Array(
                            seq![spec_type_json(tk.dv()), spec_type_json(tv.dv())],
                        ),
                    ),
                ]);
            }
            r
        },
        Type::Reference(name) => {
            let sv = JsonValue::String(name.clone());
            proof {
                assert(sv.dv() == JsonModel::String(name@));
            }
            let mut es: Vec<(String, JsonValue)> = Vec::new();
            es.push((String::from_str("reference"), sv));
            let r = JsonValue::Object(es);
            proof {
                assert(r.dv() matches JsonModel::Object(ges) && ges =~= seq![
                    ("reference"@, JsonModel::String(name@)),
                ]);
            }
            r
        },
    }
}

/// Parses a wire type from its JSON form.
pub fn type_from_json(v: JsonValue) -> (r: Result<Type, DecodeError>)
    ensures
        match r {
            Ok(t) => spec_type_parse(v.dv()) == Ok::<TypeModel, ErrorModel>(t.dv()),
            Err(e) => spec_type_parse(v.dv()) == Err::<TypeModel, ErrorModel>(e.dv()),
        },
    decreases v,
{
    match v {
        JsonValue::String(s) => match prim_parse(&s) {
            Some(k) => Ok(Type::Primitive(k)),
            None => Err(
                DecodeError::InvalidValue { found: s, expected: String::from_str("a type name") },
            ),
        },
        JsonValue::Object(es) => {
            let ghost ves = es;
            if es.len() != 1 {
                return Err(DecodeError::InvalidLength);
            }
            let mut es = es;
            let (k, inner) = es.remove(0);
            proof {
                reveal_type_keys();
                assert(inner == ves@[0].1);
                assert(decreases_to!(ves => ves@));
                assert(decreases_to!(ves@ => ves@[0]));
                assert(decreases_to!(ves@[0] => ves@[0].1));
                assert(v.dv() matches JsonModel::Object(ges) && ges.len() == 1 && ges[0] == (
                k@,
                inner.dv(),
                ));
            }
            if string_is(&k, "optional") {
                match type_from_json(inner) {
                    Ok(t) => Ok(Type::Optional(Box::new(t))),
                    Err(e) => Err(e),
                }
            } else if string_is(&k, "list") {
                match type_from_json(inner) {
                    Ok(t) => Ok(Type::List(Box::new(t))),
                    Err(e) => Err(e),
                }
            } else if string_is(&k, "set") {
                match type_from_json(inner) {
                    Ok(t) => Ok(Type::SetOf(Box::new(t))),
                    Err(e) => Err(e),
                }
            } else if string_is(&k, "map") {
                match inner {
                    JsonValue::Array(xs) => {
                        let ghost vxs = xs;
                        if xs.len() != 2 {
                            return Err(DecodeError::InvalidLength);
                        }
                        let mut xs = xs;
                        let x0 = xs.remove(0);
                        let x1 = xs.remove(0);
                        proof {
                            assert(x0 == vxs@[0] && x1 == vxs@[1]);
                            assert(decreases_to!(vxs => vxs@));
                            assert(decreases_to!(vxs@ => vxs@[0]));
                            assert(decreases_to!(vxs@ => vxs@[1]));
                        }
                        let tk = match type_from_json(x0) {
                            Ok(t) => t,
                            Err(e) => {
                                return Err(e);
                            },
                        };
                        match type_from_json(x1) {
                            Ok(tv) => Ok(Type::MapOf(Box::new(tk), Box::new(tv))),
                            Err(e) => Err(e),
                        }
                    },
                    _ => Err(DecodeError::WrongType(String::from_str("array"))),
                }
            } else if string_is(&k, "reference") {
                match inner {
                    JsonValue::String(s) => Ok(Type::Reference(s)),
                    _ => Err(DecodeError::WrongType(String::from_str("string"))),
                }
            } else {
                Err(DecodeError::UnknownField(k))
            }
        },
        _ => Err(DecodeError::WrongType(String::from_str("type"))),
    }
}


/// The JSON form of an authentication choice: a one-entry object for
/// header auth, a two-entry object carrying the cookie name.
pub open spec fn spec_auth_json(a: AuthModel) -> JsonModel {
    match a {
        AuthModel::Header => JsonModel::Object(seq![("type"@, JsonModel::String("header"@))]),
        AuthModel::Cookie(name) => JsonModel::Object(
            seq![
                ("type"@, JsonModel::String("cookie"@)),
                ("cookieName"@, JsonModel::String(name)),
            ],
        ),
    }
}

/// What parsing an authentication choice returns, for every JSON shape.
pub open spec fn spec_auth_parse(m: JsonModel) -> Result<AuthModel, ErrorModel> {
    match m {
        JsonModel::Object(es) => {
            if es.len() == 0 {
                Err(ErrorModel::MissingField("type"@))
            } else if es[0].0 != "type"@ {
                Err(ErrorModel::UnknownField(es[0].0))
            } else {
                match es[0].1 {
                    JsonModel::String(t) => {
                        if t == "header"@ {
                            if es.len() == 1 {
                                Ok(AuthModel::Header)
                            } else {
                                Err(ErrorModel::InvalidLength)
                            }
                        } else if t == "cookie"@ {
                            if es.len() != 2 {
                                Err(ErrorModel::InvalidLength)
                            } else if es[1].0 != "cookieName"@ {
                                Err(ErrorModel::UnknownField(es[1].0))
                            } else {
                                match es[1].1 {
                                    JsonModel::String(name) => Ok(AuthModel::Cookie(name)),
                                    _ => Err(ErrorModel::WrongType("string"@)),
                                }
                            }
                        } else {
                            Err(ErrorModel::UnknownVariant(t))
                        }
                    },
                    _ => Err(ErrorModel::WrongType("string"@)),
                }
            }
        },
        _ => Err(ErrorModel::WrongType("object"@)),
    }
}

/// Every authentication choice survives an encode-parse round trip.
pub proof fn lemma_auth_round_trip(a: AuthModel)
    ensures
        spec_auth_parse(spec_auth_json(a)) == Ok::<AuthModel, ErrorModel>(a),
{
    reveal_strlit("type");
    reveal_strlit("header");
    reveal_strlit("cookie");
    reveal_strlit("cookieName");
    assert("header"@[0] == 'h' && "cookie"@[0] == 'c');
    match a {
        AuthModel::Header => {
            let es = seq![("type"@, JsonModel::String("header"@))];
            assert(es[0].0 == "type"@ && es[0].1 == JsonModel::String("header"@));
        },
        AuthModel::Cookie(name) => {
            let es = seq![
                ("type"@, JsonModel::String("cookie"@)),
                ("cookieName"@, JsonModel::String(name)),
            ];
            assert(es[0].0 == "type"@ && es[0].1 == JsonModel::String("cookie"@));
            assert(es[1].0 == "cookieName"@ && es[1].1 == JsonModel::String(name));
        },
    }
}

/// Encodes an authentication choice.
pub fn auth_to_json(a: &AuthType) -> (r: JsonValue)
    ensures
        r.dv() == spec_auth_json(a.dv()),
{
    match a {
        AuthType::Header => {
            let sv = JsonValue::String(String::from_str("header"));
            proof {
                assert(sv.dv() == JsonModel::String("header"@));
            }
            let mut es: Vec<(String, JsonValue)> = Vec::new();
            es.push((String::from_str("type"), sv));
            let r = JsonValue::Object(es);
            proof {
                assert(r.dv() matches JsonModel::Object(ges) && ges =~= seq![
                    ("type"@, JsonModel::String("header"@)),
                ]);
            }
            r
        },
        AuthType::Cookie(name) => {
            let sv = JsonValue::String(String::from_str("cookie"));
            let nv = JsonValue::String(name.clone());
            proof {
                assert(sv.dv() == JsonModel::String("cookie"@));
                assert(nv.dv() == JsonModel::String(name@));
            }
            let mut es: Vec<(String, JsonValue)> = Vec::new();
            es.push((String::from_str("type"), sv));
            es.push((String::from_str("cookieName"), nv));
            let r = JsonValue::Object(es);
            proof {
                assert(r.dv() matches JsonModel::Object(ges) && ges =~= seq![
                    ("type"@, JsonModel::String("cookie"@)),
                    ("cookieName"@, JsonModel::String(name@)),
                ]);
            }
            r
        },
    }
}

/// Parses an authentication choice.
pub fn auth_from_json(v: JsonValue) -> (r: Result<AuthType, DecodeError>)
    ensures
        match r {
            Ok(a) => spec_auth_parse(v.dv()) == Ok::<AuthModel, ErrorModel>(a.dv()),
            Err(e) => spec_auth_parse(v.dv()) == Err::<AuthModel, ErrorModel>(e.dv()),
        },
{
    match v {
        JsonValue::Object(es) => {
            let n = es.len();
            if n == 0 {
                return Err(DecodeError::MissingField(String::from_str("type")));
            }
            let mut es = es;
            let (k0, v0) = es.remove(0);
            proof {
                assert(v.dv() matches JsonModel::Object(ges) && ges.len() == n && ges[0] == (
                k0@,
                v0.dv(),
                ));
            }
            if !string_is(&k0, "type") {
                return Err(DecodeError::UnknownField(k0));
            }
            match v0 {
                JsonValue::String(t) => {
                    if string_is(&t, "header") {
                        if n == 1 {
                            Ok(AuthType::Header)
                        } else {
                            Err(DecodeError::InvalidLength)
                        }
                    } else if string_is(&t, "cookie") {
                        if n != 2 {
                            return Err(DecodeError::InvalidLength);
                        }
                        let (k1, v1) = es.remove(0);
                        proof {
                            assert(v.dv() matches JsonModel::Object(ges) && ges[1] == (
                            k1@,
                            v1.dv(),
                            ));
                        }
                        if !string_is(&k1, "cookieName") {
                            return Err(DecodeError::UnknownField(k1));
                        }
                        match v1 {
                            JsonValue::String(name) => Ok(AuthType::Cookie(name)),
                            _ => Err(DecodeError::WrongType(String::from_str("string"))),
                        }
                    } else {
                        Err(DecodeError::UnknownVariant(t))
                    }
                },
                _ => Err(DecodeError::WrongType(String::from_str("string"))),
            }
        },
        _ => Err(DecodeError::WrongType(String::from_str("object"))),
    }
}

/// The JSON form of a parameter kind: plain strings for body and path,
/// a one-entry object carrying the wire key for query and header.
pub open spec fn spec_param_json(p: ParamModel) -> JsonModel {
    match p {
        ParamModel::Body => JsonModel::String("body"@),
        ParamModel::Path => JsonModel::String("path"@),
        ParamModel::Query(id) => JsonModel::Object(seq![("query"@, JsonModel::String(id))]),
        ParamModel::Header(id) => JsonModel::Object(seq![("header"@, JsonModel::String(id))]),
    }
}

/// What parsing a parameter kind returns, for every JSON shape.
pub open spec fn spec_param_parse(m: JsonModel) -> Result<ParamModel, ErrorModel> {
    match m {
        JsonModel::String(s) => {
            if s == "body"@ {
                Ok(ParamModel::Body)
            } else if s == "path"@ {
                Ok(ParamModel::Path)
            } else {
                Err(ErrorModel::InvalidValue { found: s, expected: "a parameter kind"@ })
            }
        },
        JsonModel::Object(es) => {
            if es.len() != 1 {
                Err(ErrorModel::InvalidLength)
            } else {
                match es[0].1 {
                    JsonModel::String(id) => {
                        if es[0].0 == "query"@ {
                            Ok(ParamModel::Query(id))
                        } else if es[0].0 == "header"@ {
                            Ok(ParamModel::Header(id))
                        } else {
                            Err(ErrorModel::UnknownField(es[0].0))
                        }
                    },
                    _ => Err(ErrorModel::WrongType("string"@)),
                }
            }
        },
        _ => Err(ErrorModel::WrongType("parameter"@)),
    }
}

/// Every parameter kind survives an encode-parse round trip.
pub proof fn lemma_param_round_trip(p: ParamModel)
    ensures
        spec_param_parse(spec_param_json(p)) == Ok::<ParamModel, ErrorModel>(p),
{
    reveal_strlit("body");
    reveal_strlit("path");
    reveal_strlit("query");
    reveal_strlit("header");
    assert("body"@[0] == 'b' && "path"@[0] == 'p' && "query"@[0] == 'q' && "header"@[0] == 'h');
    match p {
        ParamModel::Query(id) => {
            let es = seq![("query"@, JsonModel::String(id))];
            assert(es[0].0 == "query"@ && es[0].1 == JsonModel::String(id));
        },
        ParamModel::Header(id) => {
            let es = seq![("header"@, JsonModel::String(id))];
            assert(es[0].0 == "header"@ && es[0].1 == JsonModel::String(id));
        },
        _ => {
        },
    }
}

/// Encodes a parameter kind.
pub fn param_to_json(p: &ParameterType) -> (r: JsonValue)
    ensures
        r.dv() == spec_param_json(p.dv()),
{
    match p {
        ParameterType::Body => JsonValue::String(String::from_str("body")),
        ParameterType::Path => JsonValue::String(String::from_str("path")),
        ParameterType::Query(id) => {
            let iv = JsonValue::String(id.clone());
            proof {
                assert(iv.dv() == JsonModel::String(id@));
            }
            let mut es: Vec<(String, JsonValue)> = Vec::new();
            es.push((String::from_str("query"), iv));
            let r = JsonValue::Object(es);
            proof {
                assert(r.dv() matches JsonModel::Object(ges) && ges =~= seq![
                    ("query"@, JsonModel::String(id@)),
                ]);
            }
            r
        },
        ParameterType::Header(id) => {
            let iv = JsonValue::String(id.clone());
            proof {
                assert(iv.dv() == JsonModel::String(id@));
            }
            let mut es: Vec<(String, JsonValue)> = Vec::new();
            es.push((String::from_str("header"), iv));
            let r = JsonValue::Object(es);
            proof {
                assert(r.dv() matches JsonModel::Object(ges) && ges =~= seq![
                    ("header"@, JsonModel::String(id@)),
                ]);
            }
            r
        },
    }
}

/// Parses a parameter kind.
pub fn param_from_json(v: JsonValue) -> (r: Result<ParameterType, DecodeError>)
    ensures
        match r {
            Ok(p) => spec_param_parse(v.dv()) == Ok::<ParamModel, ErrorModel>(p.dv()),
            Err(e) => spec_param_parse(v.dv()) == Err::<ParamModel, ErrorModel>(e.dv()),
        },
{
    match v {
        JsonValue::String(s) => {
            if string_is(&s, "body") {
                Ok(ParameterType::Body)
            } else if string_is(&s, "path") {
                Ok(ParameterType::Path)
            } else {
                Err(
                    DecodeError::InvalidValue {
                        found: s,
                        expected: String::from_str("a parameter kind"),
                    },
                )
            }
        },
        JsonValue::Object(es) => {
            if es.len() != 1 {
                return Err(DecodeError::InvalidLength);
            }
            let mut es = es;
            let (k, inner) = es.remove(0);
            proof {
                assert(v.dv() matches JsonModel::Object(ges) && ges.len() == 1 && ges[0] == (
                k@,
                inner.dv(),
                ));
            }
            match inner {
                JsonValue::String(id) => {
                    if string_is(&k, "query") {
                        Ok(ParameterType::Query(id))
                    } else if string_is(&k, "header") {
                        Ok(ParameterType::Header(id))
                    } else {
                        Err(DecodeError::UnknownField(k))
                    }
                },
                _ => Err(DecodeError::WrongType(String::from_str("string"))),
            }
        },
        _ => Err(DecodeError::WrongType(String::from_str("parameter"))),
    }
}

/// The JSON form of an argument: a three-entry object with a fixed key
/// order.
pub open spec fn spec_arg_json(a: ArgModel) -> JsonModel {
    JsonModel::Object(
        seq![
            ("argName"@, JsonModel::String(a.arg_name)),
            ("type"@, spec_type_json(a.type_)),
            ("paramType"@, spec_param_json(a.param_type)),
        ],
    )
}

/// What parsing an argument returns, for every JSON shape.
pub open spec fn spec_arg_parse(m: JsonModel) -> Result<ArgModel, ErrorModel> {
    match m {
        JsonModel::Object(es) => {
            if es.len() != 3 {
                Err(ErrorModel::InvalidLength)
            } else if es[0].0 != "argName"@ {
                Err(ErrorModel::UnknownField(es[0].0))
            } else if es[1].0 != "type"@ {
                Err(ErrorModel::UnknownField(es[1].0))
            } else if es[2].0 != "paramType"@ {
                Err(ErrorModel::UnknownField(es[2].0))
            } else {
                match es[0].1 {
                    JsonModel::String(name) => match spec_type_parse(es[1].1) {
                        Ok(t) => match spec_param_parse(es[2].1) {
                            Ok(p) => Ok(ArgModel { arg_name: name, type_: t, param_type: p }),
                            Err(e) => Err(e),
                        },
                        Err(e) => Err(e),
                    },
                    _ => Err(ErrorModel::WrongType("string"@)),
                }
            }
        },
        _ => Err(ErrorModel::WrongType("object"@)),
    }
}

/// Every argument survives an encode-parse round trip.
pub proof fn lemma_arg_round_trip(a: ArgModel)
    ensures
        spec_arg_parse(spec_arg_json(a)) == Ok::<ArgModel, ErrorModel>(a),
{
    lemma_type_round_trip(a.type_);
    lemma_param_round_trip(a.param_type);
    let es = seq![
        ("argName"@, JsonModel::String(a.arg_name)),
        ("type"@, spec_type_json(a.type_)),
        ("paramType"@, spec_param_json(a.param_type)),
    ];
    assert(es[0].0 == "argName"@ && es[0].1 == JsonModel::String(a.arg_name));
    assert(es[1].0 == "type"@ && es[1].1 == spec_type_json(a.type_));
    assert(es[2].0 == "paramType"@ && es[2].1 == spec_param_json(a.param_type));
}

/// Encodes an argument.
pub fn arg_to_json(a: &ArgumentDefinition) -> (r: JsonValue)
    ensures
        r.dv() == spec_arg_json(a.dv()),
{
    let nv = JsonValue::String(a.arg_name.clone());
    proof {
        assert(nv.dv() == JsonModel::String(a.arg_name@));
    }
    let mut es: Vec<(String, JsonValue)> = Vec::new();
    es.push((String::from_str("argName"), nv));
    es.push((String::from_str("type"), type_to_json(&a.type_)));
    es.push((String::from_str("paramType"), param_to_json(&a.param_type)));
    let r = JsonValue::Object(es);
    proof {
        assert(r.dv() matches JsonModel::Object(ges) && ges =~= seq![
            ("argName"@, JsonModel::String(a.arg_name@)),
            ("type"@, spec_type_json(a.type_.dv())),
            ("paramType"@, spec_param_json(a.param_type.dv())),
        ]);
    }
    r
}

/// Parses an argument.
pub fn arg_from_json(v: JsonValue) -> (r: Result<ArgumentDefinition, DecodeError>)
    ensures
        match r {
            Ok(a) => spec_arg_parse(v.dv()) == Ok::<ArgModel, ErrorModel>(a.dv()),
            Err(e) => spec_arg_parse(v.dv()) == Err::<ArgModel, ErrorModel>(e.dv()),
        },
{
    match v {
        JsonValue::Object(es) => {
            if es.len() != 3 {
                return Err(DecodeError::InvalidLength);
            }
            let mut es = es;
            let (k0, v0) = es.remove(0);
            let (k1, v1) = es.remove(0);
            let (k2, v2) = es.remove(0);
            proof {
                assert(v.dv() matches JsonModel::Object(ges) && ges.len() == 3 && ges[0] == (
                k0@,
                v0.dv(),
                ) && ges[1] == (k1@, v1.dv()) && ges[2] == (k2@, v2.dv()));
            }
            if !string_is(&k0, "argName") {
                return Err(DecodeError::UnknownField(k0));
            }
            if !string_is(&k1, "type") {
                return Err(DecodeError::UnknownField(k1));
            }
            if !string_is(&k2, "paramType") {
                return Err(DecodeError::UnknownField(k2));
            }
            match v0 {
                JsonValue::String(name) => {
                    let t = match type_from_json(v1) {
                        Ok(t) => t,
                        Err(e) => {
                            return Err(e);
                        },
                    };
                    match param_from_json(v2) {
                        Ok(p) => Ok(ArgumentDefinition { arg_name: name, type_: t, param_type: p }),
                        Err(e) => Err(e),
                    }
                },
                _ => Err(DecodeError::WrongType(String::from_str("string"))),
            }
        },
        _ => Err(DecodeError::WrongType(String::from_str("object"))),
    }
}


/// The mathematical shape of an endpoint definition.
pub struct EndpointModel {
    pub endpoint_name: Seq<char>,
    pub http_method: HttpMethod,
    pub http_path: Seq<char>,
    pub auth: Option<AuthModel>,
    pub args: Seq<ArgModel>,
    pub return_type: Option<TypeModel>,
    pub docs: Option<Seq<char>>,
    pub deprecated: Option<Seq<char>>,
    pub markers: Seq<TypeModel>,
}

/// The mathematical shape of an argument list.
pub open spec fn args_dv(s: Seq<ArgumentDefinition>) -> Seq<ArgModel> {
    Seq::new(s.len(), |i: int| s[i].dv())
}

/// The mathematical shape of a type list.
pub open spec fn types_dv(s: Seq<Type>) -> Seq<TypeModel> {
    Seq::new(s.len(), |i: int| s[i].dv())
}

/// The mathematical shape of a value list.
pub open spec fn elems_dv(s: Seq<JsonValue>) -> Seq<JsonModel> {
    Seq::new(s.len(), |i: int| s[i].dv())
}

impl EndpointDefinition {
    /// The mathematical shape of this definition.
    pub open spec fn dv(self) -> EndpointModel {
        EndpointModel {
            endpoint_name: self.spec_endpoint_name()@,
            http_method: self.spec_http_method(),
            http_path: self.spec_http_path()@,
            auth: match self.spec_auth() {
                Some(a) => Some(a.dv()),
                None => None,
            },
            args: args_dv(self.spec_args()),
            return_type: match self.spec_return_type() {
                Some(t) => Some(t.dv()),
                None => None,
            },
            docs: match self.spec_docs() {
                Some(d) => Some(d@),
                None => None,
            },
            deprecated: match self.spec_deprecated() {
                Some(d) => Some(d@),
                None => None,
            },
            markers: types_dv(self.spec_markers()),
        }
    }
}

/// The JSON forms of an argument list.
pub open spec fn spec_args_json(args: Seq<ArgModel>) -> Seq<JsonModel> {
    Seq::new(args.len(), |i: int| spec_arg_json(args[i]))
}

/// The JSON forms of a type list.
pub open spec fn spec_types_json(ts: Seq<TypeModel>) -> Seq<JsonModel> {
    Seq::new(ts.len(), |i: int| spec_type_json(ts[i]))
}

/// What parsing an argument list returns: every element parses, or the
/// first failure wins.
pub open spec fn spec_args_parse(xs: Seq<JsonModel>) -> Result<Seq<ArgModel>, ErrorModel>
    decreases xs.len(),
{
    if xs.len() == 0 {
        Ok(Seq::empty())
    } else {
        match (spec_arg_parse(xs[0]), spec_args_parse(xs.drop_first())) {
            (Ok(a), Ok(rest)) => Ok(seq![a] + rest),
            (Err(e), _) => Err(e),
            (_, Err(e)) => Err(e),
        }
    }
}

/// What parsing a type list returns: every element parses, or the first
/// failure wins.
pub open spec fn spec_types_parse(xs: Seq<JsonModel>) -> Result<Seq<TypeModel>, ErrorModel>
    decreases xs.len(),
{
    if xs.len() == 0 {
        Ok(Seq::empty())
    } else {
        match (spec_type_parse(xs[0]), spec_types_parse(xs.drop_first())) {
            (Ok(t), Ok(rest)) => Ok(seq![t] + rest),
            (Err(e), _) => Err(e),
            (_, Err(e)) => Err(e),
        }
    }
}

/// Every argument list survives an encode-parse round trip.
pub proof fn lemma_args_round_trip(args: Seq<ArgModel>)
    ensures
        spec_args_parse(spec_args_json(args)) == Ok::<Seq<ArgModel>, ErrorModel>(args),
    decreases args.len(),
{
    let xs = spec_args_json(args);
    if args.len() == 0 {
        assert(args =~= Seq::<ArgModel>::empty());
    } else {
        lemma_arg_round_trip(args[0]);
        lemma_args_round_trip(args.drop_first());
        assert(xs.drop_first() =~= spec_args_json(args.drop_first()));
        assert(seq![args[0]] + args.drop_first() =~= args);
    }
}

/// Every type list survives an encode-parse round trip.
pub proof fn lemma_types_round_trip(ts: Seq<TypeModel>)
    ensures
        spec_types_parse(spec_types_json(ts)) == Ok::<Seq<TypeModel>, ErrorModel>(ts),
    decreases ts.len(),
{
    let xs = spec_types_json(ts);
    if ts.len() == 0 {
        assert(ts =~= Seq::<TypeModel>::empty());
    } else {
        lemma_type_round_trip(ts[0]);
        lemma_types_round_trip(ts.drop_first());
        assert(xs.drop_first() =~= spec_types_json(ts.drop_first()));
        assert(seq![ts[0]] + ts.drop_first() =~= ts);
    }
}

/// The endpoint record's field set, in wire order.
pub open spec fn spec_endpoint_fields() -> Seq<Seq<char>> {
    seq![
        "endpointName"@,
        "httpMethod"@,
        "httpPath"@,
        "auth"@,
        "args"@,
        "returns"@,
        "docs"@,
        "deprecated"@,
        "markers"@,
    ]
}

/// Makes the endpoint field names distinguishable to the prover.
pub(crate) proof fn reveal_endpoint_fields()
    ensures
        "endpointName"@.len() == 12,
        "httpMethod"@.len() == 10 && "httpMethod"@[0] == 'h',
        "httpPath"@.len() == 8,
        "auth"@.len() == 4 && "auth"@[1] == 'u',
        "args"@.len() == 4 && "args"@[1] == 'r',
        "returns"@.len() == 7 && "returns"@[0] == 'r',
        "docs"@.len() == 4 && "docs"@[1] == 'o',
        "deprecated"@.len() == 10 && "deprecated"@[0] == 'd',
        "markers"@.len() == 7 && "markers"@[0] == 'm',
{
    reveal_strlit("endpointName");
    reveal_strlit("httpMethod");
    reveal_strlit("httpPath");
    reveal_strlit("auth");
    reveal_strlit("args");
    reveal_strlit("returns");
    reveal_strlit("docs");
    reveal_strlit("deprecated");
    reveal_strlit("markers");
}

/// The object entries encoding an endpoint: the three required fields
/// always, each remaining field only when its skip predicate keeps it
/// (a set authentication, a non-empty argument list, a set return type,
/// set documentation, a set deprecation notice, non-empty markers).
pub open spec fn spec_endpoint_entries(e: EndpointModel) -> Seq<(Seq<char>, JsonModel)> {
    seq![
        ("endpointName"@, JsonModel::String(e.endpoint_name)),
        ("httpMethod"@, JsonModel::String(spec_method_name(e.http_method))),
        ("httpPath"@, JsonModel::String(e.http_path)),
    ] + (match e.auth {
        Some(a) => seq![("auth"@, spec_auth_json(a))],
        None => Seq::empty(),
    }) + (if e.args.len() == 0 {
        Seq::empty()
    } else {
        seq![("args"@, JsonModel::Array(spec_args_json(e.args)))]
    }) + (match e.return_type {
        Some(t) => seq![("returns"@, spec_type_json(t))],
        None => Seq::empty(),
    }) + (match e.docs {
        Some(d) => seq![("docs"@, JsonModel::String(d))],
        None => Seq::empty(),
    }) + (match e.deprecated {
        Some(d) => seq![("deprecated"@, JsonModel::String(d))],
        None => Seq::empty(),
    }) + (if e.markers.len() == 0 {
        Seq::empty()
    } else {
        seq![("markers"@, JsonModel::Array(spec_types_json(e.markers)))]
    })
}

/// The JSON form of an endpoint.
pub open spec fn spec_endpoint_json(e: EndpointModel) -> JsonModel {
    JsonModel::Object(spec_endpoint_entries(e))
}

/// What a required string-valued field yields.
pub open spec fn spec_req_string(o: Option<JsonModel>, name: Seq<char>) -> Result<
    Seq<char>,
    ErrorModel,
> {
    match o {
        None => Err(ErrorModel::MissingField(name)),
        Some(JsonModel::String(s)) => Ok(s),
        Some(_) => Err(ErrorModel::WrongType("string"@)),
    }
}

/// What an optional string-valued field yields.
pub open spec fn spec_opt_string(o: Option<JsonModel>) -> Result<
    Option<Seq<char>>,
    ErrorModel,
> {
    match o {
        None => Ok(None),
        Some(JsonModel::String(s)) => Ok(Some(s)),
        Some(_) => Err(ErrorModel::WrongType("string"@)),
    }
}

/// What parsing an endpoint returns, for every JSON shape: the strict
/// record decode, then each field against its own form, absent fields
/// defaulting to none or to empty lists.
pub open spec fn spec_endpoint_parse(m: JsonModel) -> Result<EndpointModel, ErrorModel> {
    match m {
        JsonModel::Object(es) => match spec_decode_record(es, spec_endpoint_fields()) {
            Err(e) => Err(e),
            Ok(vals) => match spec_req_string(vals[0], "endpointName"@) {
                Err(e) => Err(e),
                Ok(name) => match spec_req_string(vals[1], "httpMethod"@) {
                    Err(e) => Err(e),
                    Ok(ms) => match spec_method_parse(ms) {
                        None => Err(
                            ErrorModel::InvalidValue {
                                found: ms,
                                expected: "an HTTP method"@,
                            },
                        ),
                        Some(method) => match spec_req_string(vals[2], "httpPath"@) {
                            Err(e) => Err(e),
                            Ok(path) => match (match vals[3] {
                                None => Ok(None),
                                Some(j) => match spec_auth_parse(j) {
                                    Ok(a) => Ok(Some(a)),
                                    Err(e) => Err(e),
                                },
                            }) {
                                Err(e) => Err(e),
                                Ok(auth) => match (match vals[4] {
                                    None => Ok(Seq::empty()),
                                    Some(JsonModel::Array(xs)) => spec_args_parse(xs),
                                    Some(_) => Err(ErrorModel::WrongType("array"@)),
                                }) {
                                    Err(e) => Err(e),
                                    Ok(args) => match (match vals[5] {
                                        None => Ok(None),
                                        Some(j) => match spec_type_parse(j) {
                                            Ok(t) => Ok(Some(t)),
                                            Err(e) => Err(e),
                                        },
                                    }) {
                                        Err(e) => Err(e),
                                        Ok(ret) => match spec_opt_string(vals[6]) {
                                            Err(e) => Err(e),
                                            Ok(docs) => match spec_opt_string(vals[7]) {
                                                Err(e) => Err(e),
                                                Ok(dep) => match (match vals[8] {
                                                    None => Ok(Seq::empty()),
                                                    Some(JsonModel::Array(xs)) => spec_types_parse(
                                                        xs,
                                                    ),
                                                    Some(_) => Err(
                                                        ErrorModel::WrongType("array"@),
                                                    ),
                                                }) {
                                                    Err(e) => Err(e),
                                                    Ok(markers) => Ok(
                                                        EndpointModel {
                                                            endpoint_name: name,
                                                            http_method: method,
                                                            http_path: path,
                                                            auth,
                                                            args,
                                                            return_type: ret,
                                                            docs,
                                                            deprecated: dep,
                                                            markers,
                                                        },
                                                    ),
                                                },
                                            },
                                        },
                                    },
                                },
                            },
                        },
                    },
                },
            },
        },
        _ => Err(ErrorModel::WrongType("object"@)),
    }
}

/// Encodes an argument list.
#[verifier::loop_isolation(false)]
pub fn args_to_json(args: &Vec<ArgumentDefinition>) -> (r: Vec<JsonValue>)
    ensures
        elems_dv(r@) == spec_args_json(args_dv(args@)),
{
    let mut out: Vec<JsonValue> = Vec::new();
    let mut i: usize = 0;
    while i < args.len()
        invariant
            0 <= i <= args@.len(),
            elems_dv(out@) =~= spec_args_json(args_dv(args@)).take(i as int),
        decreases args@.len() - i,
    {
        out.push(arg_to_json(&args[i]));
        i = i + 1;
        proof {
            assert(elems_dv(out@) =~= spec_args_json(args_dv(args@)).take(i as int));
        }
    }
    proof {
        assert(spec_args_json(args_dv(args@)).take(args@.len() as int) =~= spec_args_json(
            args_dv(args@),
        ));
    }
    out
}

/// Encodes a type list.
#[verifier::loop_isolation(false)]
pub fn types_to_json(ts: &Vec<Type>) -> (r: Vec<JsonValue>)
    ensures
        elems_dv(r@) == spec_types_json(types_dv(ts@)),
{
    let mut out: Vec<JsonValue> = Vec::new();
    let mut i: usize = 0;
    while i < ts.len()
        invariant
            0 <= i <= ts@.len(),
            elems_dv(out@) =~= spec_types_json(types_dv(ts@)).take(i as int),
        decreases ts@.len() - i,
    {
        out.push(type_to_json(&ts[i]));
        i = i + 1;
        proof {
            assert(elems_dv(out@) =~= spec_types_json(types_dv(ts@)).take(i as int));
        }
    }
    proof {
        assert(spec_types_json(types_dv(ts@)).take(ts@.len() as int) =~= spec_types_json(
            types_dv(ts@),
        ));
    }
    out
}

/// Parses an argument list, stopping at the first failure.
#[verifier::loop_isolation(false)]
pub fn args_from_json(xs: Vec<JsonValue>) -> (r: Result<Vec<ArgumentDefinition>, DecodeError>)
    ensures
        match r {
            Ok(out) => spec_args_parse(elems_dv(xs@)) == Ok::<Seq<ArgModel>, ErrorModel>(
                args_dv(out@),
            ),
            Err(e) => spec_args_parse(elems_dv(xs@)) == Err::<Seq<ArgModel>, ErrorModel>(
                e.dv(),
            ),
        },
{
    let ghost gxs = elems_dv(xs@);
    let n = xs.len();
    let mut rev: Vec<JsonValue> = Vec::new();
    let mut rest = xs;
    while rest.len() > 0
        invariant
            elems_dv(rest@ + rev@.reverse()) == gxs,
        decreases rest.len(),
    {
        let ghost o_rest = rest@;
        let ghost o_rev = rev@;
        let x = rest.pop().unwrap();
        rev.push(x);
        proof {
            assert(rest@ + rev@.reverse() =~= o_rest + o_rev.reverse());
        }
    }
    proof {
        assert(rev@.reverse() =~= rest@ + rev@.reverse());
    }
    let ghost order = rev@.reverse();
    let mut out: Vec<ArgumentDefinition> = Vec::new();
    let mut k: usize = 0;
    proof {
        assert(gxs.skip(0) =~= gxs);
        assert(forall|rest2: Seq<ArgModel>| #[trigger] (args_dv(out@) + rest2) =~= rest2);
    }
    while rev.len() > 0
        invariant
            k + rev@.len() == n,
            n == gxs.len(),
            elems_dv(order) == gxs,
            order.len() == n,
            forall|j: int| 0 <= j < rev@.len() ==> rev@[j] == order[n - 1 - j],
            forall|rest2: Seq<ArgModel>|
                spec_args_parse(gxs.skip(k as int)) == Ok::<Seq<ArgModel>, ErrorModel>(rest2)
                    ==> spec_args_parse(gxs) == Ok::<Seq<ArgModel>, ErrorModel>(
                    args_dv(out@) + rest2,
                ),
            forall|e2: ErrorModel|
                spec_args_parse(gxs.skip(k as int)) == Err::<Seq<ArgModel>, ErrorModel>(e2)
                    ==> spec_args_parse(gxs) == Err::<Seq<ArgModel>, ErrorModel>(e2),
        decreases rev.len(),
    {
        let ghost old_out = out@;
        let x = rev.pop().unwrap();
        proof {
            assert(x == order[k as int]);
            assert(gxs[k as int] == x.dv());
            assert(gxs.skip(k as int)[0] == gxs[k as int]);
            assert(gxs.skip(k as int).drop_first() =~= gxs.skip(k + 1));
        }
        match arg_from_json(x) {
            Ok(a) => {
                out.push(a);
                proof {
                    assert(args_dv(out@) =~= args_dv(old_out).push(a.dv()));
                    assert forall|rest2: Seq<ArgModel>|
                        spec_args_parse(gxs.skip(k + 1)) == Ok::<Seq<ArgModel>, ErrorModel>(
                            rest2,
                        ) implies spec_args_parse(gxs) == Ok::<Seq<ArgModel>, ErrorModel>(
                        args_dv(out@) + rest2,
                    ) by {
                        assert(spec_args_parse(gxs.skip(k as int)) == Ok::<
                            Seq<ArgModel>,
                            ErrorModel,
                        >(seq![a.dv()] + rest2));
                        assert(args_dv(old_out) + (seq![a.dv()] + rest2) =~= args_dv(out@)
                            + rest2);
                    }
                }
            },
            Err(e) => {
                proof {
                    assert(spec_args_parse(gxs.skip(k as int)) == Err::<
                        Seq<ArgModel>,
                        ErrorModel,
                    >(e.dv()));
                }
                return Err(e);
            },
        }
        k = k + 1;
    }
    proof {
        assert(gxs.skip(n as int).len() == 0);
        assert(spec_args_parse(gxs.skip(n as int)) == Ok::<Seq<ArgModel>, ErrorModel>(
            Seq::empty(),
        ));
        assert(args_dv(out@) + Seq::<ArgModel>::empty() =~= args_dv(out@));
    }
    Ok(out)
}

/// Parses a type list, stopping at the first failure.
#[verifier::loop_isolation(false)]
pub fn types_from_json(xs: Vec<JsonValue>) -> (r: Result<Vec<Type>, DecodeError>)
    ensures
        match r {
            Ok(out) => spec_types_parse(elems_dv(xs@)) == Ok::<Seq<TypeModel>, ErrorModel>(
                types_dv(out@),
            ),
            Err(e) => spec_types_parse(elems_dv(xs@)) == Err::<Seq<TypeModel>, ErrorModel>(
                e.dv(),
            ),
        },
{
    let ghost gxs = elems_dv(xs@);
    let n = xs.len();
    let mut rev: Vec<JsonValue> = Vec::new();
    let mut rest = xs;
    while rest.len() > 0
        invariant
            elems_dv(rest@ + rev@.reverse()) == gxs,
        decreases rest.len(),
    {
        let ghost o_rest = rest@;
        let ghost o_rev = rev@;
        let x = rest.pop().unwrap();
        rev.push(x);
        proof {
            assert(rest@ + rev@.reverse() =~= o_rest + o_rev.reverse());
        }
    }
    proof {
        assert(rev@.reverse() =~= rest@ + rev@.reverse());
    }
    let ghost order = rev@.reverse();
    let mut out: Vec<Type> = Vec::new();
    let mut k: usize = 0;
    proof {
        assert(gxs.skip(0) =~= gxs);
        assert(forall|rest2: Seq<TypeModel>| #[trigger] (types_dv(out@) + rest2) =~= rest2);
    }
    while rev.len() > 0
        invariant
            k + rev@.len() == n,
            n == gxs.len(),
            elems_dv(order) == gxs,
            order.len() == n,
            forall|j: int| 0 <= j < rev@.len() ==> rev@[j] == order[n - 1 - j],
            forall|rest2: Seq<TypeModel>|
                spec_types_parse(gxs.skip(k as int)) == Ok::<Seq<TypeModel>, ErrorModel>(rest2)
                    ==> spec_types_parse(gxs) == Ok::<Seq<TypeModel>, ErrorModel>(
                    types_dv(out@) + rest2,
                ),
            forall|e2: ErrorModel|
                spec_types_parse(gxs.skip(k as int)) == Err::<Seq<TypeModel>, ErrorModel>(e2)
                    ==> spec_types_parse(gxs) == Err::<Seq<TypeModel>, ErrorModel>(e2),
        decreases rev.len(),
    {
        let ghost old_out = out@;
        let x = rev.pop().unwrap();
        proof {
            assert(x == order[k as int]);
            assert(gxs[k as int] == x.dv());
            assert(gxs.skip(k as int)[0] == gxs[k as int]);
            assert(gxs.skip(k as int).drop_first() =~= gxs.skip(k + 1));
        }
        match type_from_json(x) {
            Ok(t) => {
                out.push(t);
                proof {
                    assert(types_dv(out@) =~= types_dv(old_out).push(t.dv()));
                    assert forall|rest2: Seq<TypeModel>|
                        spec_types_parse(gxs.skip(k + 1)) == Ok::<Seq<TypeModel>, ErrorModel>(
                            rest2,
                        ) implies spec_types_parse(gxs) == Ok::<Seq<TypeModel>, ErrorModel>(
                        types_dv(out@) + rest2,
                    ) by {
                        assert(spec_types_parse(gxs.skip(k as int)) == Ok::<
                            Seq<TypeModel>,
                            ErrorModel,
                        >(seq![t.dv()] + rest2));
                        assert(types_dv(old_out) + (seq![t.dv()] + rest2) =~= types_dv(out@)
                            + rest2);
                    }
                }
            },
            Err(e) => {
                proof {
                    assert(spec_types_parse(gxs.skip(k as int)) == Err::<
                        Seq<TypeModel>,
                        ErrorModel,
                    >(e.dv()));
                }
                return Err(e);
            },
        }
        k = k + 1;
    }
    proof {
        assert(gxs.skip(n as int).len() == 0);
        assert(spec_types_parse(gxs.skip(n as int)) == Ok::<Seq<TypeModel>, ErrorModel>(
            Seq::empty(),
        ));
        assert(types_dv(out@) + Seq::<TypeModel>::empty() =~= types_dv(out@));
    }
    Ok(out)
}

impl EndpointDefinition {
    /// Encodes this definition as its JSON record: the three required
    /// fields always, the others only when non-empty.
    pub fn to_json(&self) -> (r: JsonValue)
        ensures
            r.dv() == spec_endpoint_json(self.dv()),
    {
        let ghost e = self.dv();
        let mut es: Vec<(String, JsonValue)> = Vec::new();
        let nv = JsonValue::String(self.endpoint_name().clone());
        let mv = JsonValue::String(method_name(self.http_method()));
        let pv = JsonValue::String(self.http_path().clone());
        proof {
            assert(nv.dv() == JsonModel::String(e.endpoint_name));
            assert(mv.dv() == JsonModel::String(spec_method_name(e.http_method)));
            assert(pv.dv() == JsonModel::String(e.http_path));
        }
        es.push((String::from_str("endpointName"), nv));
        es.push((String::from_str("httpMethod"), mv));
        es.push((String::from_str("httpPath"), pv));
        let ghost seg0 = seq![
            ("endpointName"@, JsonModel::String(e.endpoint_name)),
            ("httpMethod"@, JsonModel::String(spec_method_name(e.http_method))),
            ("httpPath"@, JsonModel::String(e.http_path)),
        ];
        proof {
            assert(crate::codec::entries_dv(es@) =~= seg0);
        }
        let ghost seg1 = seg0 + (match e.auth {
            Some(a) => seq![("auth"@, spec_auth_json(a))],
            None => Seq::empty(),
        });
        match self.auth() {
            Some(a) => {
                es.push((String::from_str("auth"), auth_to_json(a)));
                proof {
                    assert(e.auth == Some(a.dv()));
                    assert(crate::codec::entries_dv(es@) =~= seg1);
                }
            },
            None => {
                proof {
                    assert(e.auth is None);
                    assert(crate::codec::entries_dv(es@) =~= seg1);
                }
            },
        }
        let ghost seg2 = seg1 + (if e.args.len() == 0 {
            Seq::empty()
        } else {
            seq![("args"@, JsonModel::Array(spec_args_json(e.args)))]
        });
        if self.args().len() > 0 {
            let av = JsonValue::Array(args_to_json(self.args()));
            proof {
                assert(av.dv() matches JsonModel::Array(g) && g =~= spec_args_json(e.args));
            }
            es.push((String::from_str("args"), av));
            proof {
                assert(crate::codec::entries_dv(es@) =~= seg2);
            }
        } else {
            proof {
                assert(e.args.len() == 0);
                assert(crate::codec::entries_dv(es@) =~= seg2);
            }
        }
        let ghost seg3 = seg2 + (match e.return_type {
            Some(t) => seq![("returns"@, spec_type_json(t))],
            None => Seq::empty(),
        });
        match self.return_type() {
            Some(t) => {
                es.push((String::from_str("returns"), type_to_json(t)));
                proof {
                    assert(e.return_type == Some(t.dv()));
                    assert(crate::codec::entries_dv(es@) =~= seg3);
                }
            },
            None => {
                proof {
                    assert(e.return_type is None);
                    assert(crate::codec::entries_dv(es@) =~= seg3);
                }
            },
        }
        let ghost seg4 = seg3 + (match e.docs {
            Some(d) => seq![("docs"@, JsonModel::String(d))],
            None => Seq::empty(),
        });
        match self.docs() {
            Some(d) => {
                let dv_ = JsonValue::String(d.clone());
                proof {
                    assert(dv_.dv() == JsonModel::String(d@));
                }
                es.push((String::from_str("docs"), dv_));
                proof {
                    assert(e.docs == Some(d@));
                    assert(crate::codec::entries_dv(es@) =~= seg4);
                }
            },
            None => {
                proof {
                    assert(e.docs is None);
                    assert(crate::codec::entries_dv(es@) =~= seg4);
                }
            },
        }
        let ghost seg5 = seg4 + (match e.deprecated {
            Some(d) => seq![("deprecated"@, JsonModel::String(d))],
            None => Seq::empty(),
        });
        match self.deprecated() {
            Some(d) => {
                let dv_ = JsonValue::String(d.clone());
                proof {
                    assert(dv_.dv() == JsonModel::String(d@));
                }
                es.push((String::from_str("deprecated"), dv_));
                proof {
                    assert(e.deprecated == Some(d@));
                    assert(crate::codec::entries_dv(es@) =~= seg5);
                }
            },
            None => {
                proof {
                    assert(e.deprecated is None);
                    assert(crate::codec::entries_dv(es@) =~= seg5);
                }
            },
        }
        let ghost seg6 = seg5 + (if e.markers.len() == 0 {
            Seq::empty()
        } else {
            seq![("markers"@, JsonModel::Array(spec_types_json(e.markers)))]
        });
        if self.markers().len() > 0 {
            let tv = JsonValue::Array(types_to_json(self.markers()));
            proof {
                assert(tv.dv() matches JsonModel::Array(g) && g =~= spec_types_json(e.markers));
            }
            es.push((String::from_str("markers"), tv));
            proof {
                assert(crate::codec::entries_dv(es@) =~= seg6);
            }
        } else {
            proof {
                assert(e.markers.len() == 0);
                assert(crate::codec::entries_dv(es@) =~= seg6);
            }
        }
        let r = JsonValue::Object(es);
        proof {
            assert(seg6 =~= spec_endpoint_entries(e));
            assert(r.dv() matches JsonModel::Object(g) && g =~= crate::codec::entries_dv(es@));
        }
        r
    }
}

impl EndpointDefinition {
    /// Decodes a definition from its JSON record, rejecting unknown
    /// fields and defaulting absent optional ones.
    pub fn from_json(v: JsonValue) -> (r: Result<EndpointDefinition, DecodeError>)
        ensures
            match r {
                Ok(d) => spec_endpoint_parse(v.dv()) == Ok::<EndpointModel, ErrorModel>(d.dv()),
                Err(e) => spec_endpoint_parse(v.dv()) == Err::<EndpointModel, ErrorModel>(
                    e.dv(),
                ),
            },
    {
        let es = match v {
            JsonValue::Object(es) => es,
            _ => {
                return Err(DecodeError::WrongType(String::from_str("object")));
            },
        };
        let ghost ges = crate::codec::entries_dv(es@);
        proof {
            assert(v.dv() matches JsonModel::Object(g) && g =~= ges);
        }
        let mut fields: Vec<String> = Vec::new();
        fields.push(String::from_str("endpointName"));
        fields.push(String::from_str("httpMethod"));
        fields.push(String::from_str("httpPath"));
        fields.push(String::from_str("auth"));
        fields.push(String::from_str("args"));
        fields.push(String::from_str("returns"));
        fields.push(String::from_str("docs"));
        fields.push(String::from_str("deprecated"));
        fields.push(String::from_str("markers"));
        proof {
            reveal_endpoint_fields();
            assert(crate::codec::fields_dv(fields@) =~= spec_endpoint_fields());
            assert(forall|i: int, j: int|
                0 <= i < j < fields@.len() ==> #[trigger] fields@[i]@ != #[trigger] fields@[j]@);
        }
        let mut vals = match decode_record(es, &fields) {
            Ok(vals) => vals,
            Err(e) => {
                return Err(e);
            },
        };
        let ghost gvals = crate::codec::opts_dv(vals@);
        proof {
            assert(spec_decode_record(ges, spec_endpoint_fields()) == Ok::<
                Seq<Option<JsonModel>>,
                ErrorModel,
            >(gvals));
            assert(gvals.len() == 9);
        }
        let v0 = vals.remove(0);
        let v1 = vals.remove(0);
        let v2 = vals.remove(0);
        let v3 = vals.remove(0);
        let v4 = vals.remove(0);
        let v5 = vals.remove(0);
        let v6 = vals.remove(0);
        let v7 = vals.remove(0);
        let v8 = vals.remove(0);
        proof {
            assert(gvals[0] == crate::codec::opts_dv(seq![v0])[0]);
            assert(gvals[1] == crate::codec::opts_dv(seq![v1])[0]);
            assert(gvals[2] == crate::codec::opts_dv(seq![v2])[0]);
            assert(gvals[3] == crate::codec::opts_dv(seq![v3])[0]);
            assert(gvals[4] == crate::codec::opts_dv(seq![v4])[0]);
            assert(gvals[5] == crate::codec::opts_dv(seq![v5])[0]);
            assert(gvals[6] == crate::codec::opts_dv(seq![v6])[0]);
            assert(gvals[7] == crate::codec::opts_dv(seq![v7])[0]);
            assert(gvals[8] == crate::codec::opts_dv(seq![v8])[0]);
        }
        let name = match v0 {
            Some(JsonValue::String(s)) => s,
            Some(_) => {
                return Err(DecodeError::WrongType(String::from_str("string")));
            },
            None => {
                return Err(DecodeError::MissingField(String::from_str("endpointName")));
            },
        };
        let method = match v1 {
            Some(JsonValue::String(s)) => {
                match method_parse(&s) {
                    Some(m) => m,
                    None => {
                        return Err(
                            DecodeError::InvalidValue {
                                found: s,
                                expected: String::from_str("an HTTP method"),
                            },
                        );
                    },
                }
            },
            Some(_) => {
                return Err(DecodeError::WrongType(String::from_str("string")));
            },
            None => {
                return Err(DecodeError::MissingField(String::from_str("httpMethod")));
            },
        };
        let path = match v2 {
            Some(JsonValue::String(s)) => s,
            Some(_) => {
                return Err(DecodeError::WrongType(String::from_str("string")));
            },
            None => {
                return Err(DecodeError::MissingField(String::from_str("httpPath")));
            },
        };
        let auth = match v3 {
            None => None,
            Some(j) => match auth_from_json(j) {
                Ok(a) => Some(a),
                Err(e) => {
                    return Err(e);
                },
            },
        };
        let args = match v4 {
            None => Vec::new(),
            Some(JsonValue::Array(xs)) => {
                let ghost gxs = xs@;
                proof {
                    assert(gvals[4] == Some(JsonValue::Array(xs).dv()));
                    assert(JsonValue::Array(xs).dv() matches JsonModel::Array(g) && g =~= elems_dv(
                        gxs,
                    ));
                }
                match args_from_json(xs) {
                    Ok(a) => a,
                    Err(e) => {
                        return Err(e);
                    },
                }
            },
            Some(_) => {
                return Err(DecodeError::WrongType(String::from_str("array")));
            },
        };
        let ret = match v5 {
            None => None,
            Some(j) => match type_from_json(j) {
                Ok(t) => Some(t),
                Err(e) => {
                    return Err(e);
                },
            },
        };
        let docs = match v6 {
            None => None,
            Some(JsonValue::String(s)) => Some(s),
            Some(_) => {
                return Err(DecodeError::WrongType(String::from_str("string")));
            },
        };
        let deprecated = match v7 {
            None => None,
            Some(JsonValue::String(s)) => Some(s),
            Some(_) => {
                return Err(DecodeError::WrongType(String::from_str("string")));
            },
        };
        let markers = match v8 {
            None => Vec::new(),
            Some(JsonValue::Array(xs)) => {
                let ghost gxs = xs@;
                proof {
                    assert(gvals[8] == Some(JsonValue::Array(xs).dv()));
                    assert(JsonValue::Array(xs).dv() matches JsonModel::Array(g) && g =~= elems_dv(
                        gxs,
                    ));
                }
                match types_from_json(xs) {
                    Ok(t) => t,
                    Err(e) => {
                        return Err(e);
                    },
                }
            },
            Some(_) => {
                return Err(DecodeError::WrongType(String::from_str("array")));
            },
        };
        let mut b = EndpointDefinition::builder();
        b.endpoint_name(name);
        b.http_method(method);
        b.http_path(path);
        b.auth(auth);
        b.args(args);
        b.return_type(ret);
        b.docs(docs);
        b.deprecated(deprecated);
        b.markers(markers);
        let d = b.build();
        proof {
            if args@.len() == 0 {
                assert(args_dv(args@) =~= Seq::<ArgModel>::empty());
            }
            if markers@.len() == 0 {
                assert(types_dv(markers@) =~= Seq::<TypeModel>::empty());
            }
            assert(args_dv(d.spec_args()) == args_dv(args@));
            assert(types_dv(d.spec_markers()) == types_dv(markers@));
        }
        Ok(d)
    }
}

/// Each entry of an encoded endpoint is one of the nine known
/// key-value pairs, present only when its field is.
proof fn lemma_entry_resolve(e: EndpointModel, l: int)
    requires
        0 <= l < spec_endpoint_entries(e).len(),
    ensures
        ({
            let es = spec_endpoint_entries(e);
            ||| es[l] == ("endpointName"@, JsonModel::String(e.endpoint_name))
            ||| es[l] == ("httpMethod"@, JsonModel::String(spec_method_name(e.http_method)))
            ||| es[l] == ("httpPath"@, JsonModel::String(e.http_path))
            ||| (e.auth matches Some(a) && es[l] == ("auth"@, spec_auth_json(a)))
            ||| (e.args.len() > 0 && es[l] == (
                "args"@,
                JsonModel::Array(spec_args_json(e.args)),
            ))
            ||| (e.return_type matches Some(t) && es[l] == ("returns"@, spec_type_json(t)))
            ||| (e.docs matches Some(d) && es[l] == ("docs"@, JsonModel::String(d)))
            ||| (e.deprecated matches Some(d) && es[l] == (
                "deprecated"@,
                JsonModel::String(d),
            ))
            ||| (e.markers.len() > 0 && es[l] == (
                "markers"@,
                JsonModel::Array(spec_types_json(e.markers)),
            ))
        }),
{
}

/// Every endpoint definition survives an encode-parse round trip: the
/// skipped fields come back as their defaults.
#[verifier::rlimit(80)]
pub proof fn lemma_endpoint_round_trip(e: EndpointModel)
    ensures
        spec_endpoint_parse(spec_endpoint_json(e)) == Ok::<EndpointModel, ErrorModel>(e),
{
    reveal_endpoint_fields();
    let fields = spec_endpoint_fields();
    assert(fields.len() == 9);
    assert(fields[0] == "endpointName"@ && fields[1] == "httpMethod"@ && fields[2]
        == "httpPath"@ && fields[3] == "auth"@ && fields[4] == "args"@ && fields[5] == "returns"@
        && fields[6] == "docs"@ && fields[7] == "deprecated"@ && fields[8] == "markers"@);
    assert(forall|i: int, j: int| 0 <= i < j < 9 ==> fields[i] != fields[j]);
    lemma_field_index_found(fields, "endpointName"@, 0);
    lemma_field_index_found(fields, "httpMethod"@, 1);
    lemma_field_index_found(fields, "httpPath"@, 2);
    lemma_field_index_found(fields, "auth"@, 3);
    lemma_field_index_found(fields, "args"@, 4);
    lemma_field_index_found(fields, "returns"@, 5);
    lemma_field_index_found(fields, "docs"@, 6);
    lemma_field_index_found(fields, "deprecated"@, 7);
    lemma_field_index_found(fields, "markers"@, 8);
    let es = spec_endpoint_entries(e);
    assert forall|l: int| 0 <= l < es.len() implies spec_field_index(
        fields,
        (#[trigger] es[l]).0,
    ) != -1 by {
        lemma_entry_resolve(e, l);
    }
    lemma_first_unknown_none(es, fields);
    assert(spec_first_unknown(es, fields) == -1);
    // the three required entries sit at the front
    assert(es[0] == ("endpointName"@, JsonModel::String(e.endpoint_name)));
    assert(es[1] == ("httpMethod"@, JsonModel::String(spec_method_name(e.http_method))));
    assert(es[2] == ("httpPath"@, JsonModel::String(e.http_path)));
    assert forall|l: int|
        0 <= l < es.len() && (#[trigger] es[l]).0 == "endpointName"@ implies es[l].1
        == JsonModel::String(e.endpoint_name) by {
        lemma_entry_resolve(e, l);
    }
    lemma_field_value_determined(es, "endpointName"@, JsonModel::String(e.endpoint_name));
    assert forall|l: int|
        0 <= l < es.len() && (#[trigger] es[l]).0 == "httpMethod"@ implies es[l].1
        == JsonModel::String(spec_method_name(e.http_method)) by {
        lemma_entry_resolve(e, l);
    }
    lemma_field_value_determined(
        es,
        "httpMethod"@,
        JsonModel::String(spec_method_name(e.http_method)),
    );
    lemma_method_round_trip(e.http_method);
    assert forall|l: int|
        0 <= l < es.len() && (#[trigger] es[l]).0 == "httpPath"@ implies es[l].1
        == JsonModel::String(e.http_path) by {
        lemma_entry_resolve(e, l);
    }
    lemma_field_value_determined(es, "httpPath"@, JsonModel::String(e.http_path));
    // the optional entries sit behind the required three, each shifted
    // by the ones before it that are present
    let off_auth: int = 3;
    let off_args: int = off_auth + (if e.auth is Some { 1int } else { 0int });
    let off_ret: int = off_args + (if e.args.len() > 0 { 1int } else { 0int });
    let off_docs: int = off_ret + (if e.return_type is Some { 1int } else { 0int });
    let off_dep: int = off_docs + (if e.docs is Some { 1int } else { 0int });
    let off_mk: int = off_dep + (if e.deprecated is Some { 1int } else { 0int });
    match e.auth {
        Some(a) => {
            assert(es[off_auth] == ("auth"@, spec_auth_json(a)));
            assert forall|l: int|
                0 <= l < es.len() && (#[trigger] es[l]).0 == "auth"@ implies es[l].1
                == spec_auth_json(a) by {
                lemma_entry_resolve(e, l);
            }
            lemma_field_value_determined(es, "auth"@, spec_auth_json(a));
            lemma_auth_round_trip(a);
        },
        None => {
            assert forall|l: int| 0 <= l < es.len() implies (#[trigger] es[l]).0 != "auth"@ by {
                lemma_entry_resolve(e, l);
            }
            lemma_field_value_absent(es, "auth"@);
        },
    }
    if e.args.len() > 0 {
        assert(es[off_args] == ("args"@, JsonModel::Array(spec_args_json(e.args))));
        assert forall|l: int|
            0 <= l < es.len() && (#[trigger] es[l]).0 == "args"@ implies es[l].1
            == JsonModel::Array(spec_args_json(e.args)) by {
            lemma_entry_resolve(e, l);
        }
        lemma_field_value_determined(es, "args"@, JsonModel::Array(spec_args_json(e.args)));
        lemma_args_round_trip(e.args);
    } else {
        assert forall|l: int| 0 <= l < es.len() implies (#[trigger] es[l]).0 != "args"@ by {
            lemma_entry_resolve(e, l);
        }
        lemma_field_value_absent(es, "args"@);
        assert(e.args =~= Seq::<ArgModel>::empty());
    }
    match e.return_type {
        Some(t) => {
            assert(es[off_ret] == ("returns"@, spec_type_json(t)));
            assert forall|l: int|
                0 <= l < es.len() && (#[trigger] es[l]).0 == "returns"@ implies es[l].1
                == spec_type_json(t) by {
                lemma_entry_resolve(e, l);
            }
            lemma_field_value_determined(es, "returns"@, spec_type_json(t));
            lemma_type_round_trip(t);
        },
        None => {
            assert forall|l: int|
                0 <= l < es.len() implies (#[trigger] es[l]).0 != "returns"@ by {
                lemma_entry_resolve(e, l);
            }
            lemma_field_value_absent(es, "returns"@);
        },
    }
    match e.docs {
        Some(d) => {
            assert(es[off_docs] == ("docs"@, JsonModel::String(d)));
            assert forall|l: int|
                0 <= l < es.len() && (#[trigger] es[l]).0 == "docs"@ implies es[l].1
                == JsonModel::String(d) by {
                lemma_entry_resolve(e, l);
            }
            lemma_field_value_determined(es, "docs"@, JsonModel::String(d));
        },
        None => {
            assert forall|l: int| 0 <= l < es.len() implies (#[trigger] es[l]).0 != "docs"@ by {
                lemma_entry_resolve(e, l);
            }
            lemma_field_value_absent(es, "docs"@);
        },
    }
    match e.deprecated {
        Some(d) => {
            assert(es[off_dep] == ("deprecated"@, JsonModel::String(d)));
            assert forall|l: int|
                0 <= l < es.len() && (#[trigger] es[l]).0 == "deprecated"@ implies es[l].1
                == JsonModel::String(d) by {
                lemma_entry_resolve(e, l);
            }
            lemma_field_value_determined(es, "deprecated"@, JsonModel::String(d));
        },
        None => {
            assert forall|l: int|
                0 <= l < es.len() implies (#[trigger] es[l]).0 != "deprecated"@ by {
                lemma_entry_resolve(e, l);
            }
            lemma_field_value_absent(es, "deprecated"@);
        },
    }
    if e.markers.len() > 0 {
        assert(es[off_mk] == ("markers"@, JsonModel::Array(spec_types_json(e.markers))));
        assert forall|l: int|
            0 <= l < es.len() && (#[trigger] es[l]).0 == "markers"@ implies es[l].1
            == JsonModel::Array(spec_types_json(e.markers)) by {
            lemma_entry_resolve(e, l);
        }
        lemma_field_value_determined(
            es,
            "markers"@,
            JsonModel::Array(spec_types_json(e.markers)),
        );
        lemma_types_round_trip(e.markers);
    } else {
        assert forall|l: int| 0 <= l < es.len() implies (#[trigger] es[l]).0 != "markers"@ by {
            lemma_entry_resolve(e, l);
        }
        lemma_field_value_absent(es, "markers"@);
        assert(e.markers =~= Seq::<TypeModel>::empty());
    }
    let vals = Seq::new(fields.len(), |i: int| spec_field_value(es, fields[i]));
    assert(spec_decode_record(es, fields) == Ok::<Seq<Option<JsonModel>>, ErrorModel>(vals));
    assert(vals[0] == Some(JsonModel::String(e.endpoint_name)));
    assert(vals[1] == Some(JsonModel::String(spec_method_name(e.http_method))));
    assert(vals[2] == Some(JsonModel::String(e.http_path)));
}

} // verus!
