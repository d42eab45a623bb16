//! A JSON document modelled as a tree of plain values.
//!
//! Object entries keep the order in which they appeared, because the wire
//! conventions for tagged unions depend on which key comes first.

use vstd::prelude::*;

verus! {

/// A JSON value. Numbers carry their decimal token text, so that no
/// precision is lost and no floating-point arithmetic is needed.
#[derive(Debug)]
pub enum JsonValue {
    Null,
    Bool(bool),
    /// The decimal token of a JSON number, e.g. `3.25` or `-17`.
    Number(String),
    String(String),
    Array(Vec<JsonValue>),
    /// Object entries in document order.
    Object(Vec<(String, JsonValue)>),
}

/// The mathematical shape of a JSON value: strings as character
/// sequences, arrays and objects as sequences.
pub enum JsonModel {
    Null,
    Bool(bool),
    Number(Seq<char>),
    String(Seq<char>),
    Array(Seq<JsonModel>),
    Object(Seq<(Seq<char>, JsonModel)>),
}

impl JsonValue {
    /// The mathematical shape of this value.
    pub open spec fn dv(self) -> JsonModel
        decreases self,
    {
        match self {
            JsonValue::Null => JsonModel::Null,
            JsonValue::Bool(b) => JsonModel::Bool(b),
            JsonValue::Number(t) => JsonModel::Number(t@),
            JsonValue::String(s) => JsonModel::String(s@),
            JsonValue::Array(xs) => JsonModel::Array(
                Seq::new(
                    xs@.len(),
                    |i: int|
                        if 0 <= i < xs@.len() {
                            xs@[i].dv()
                        } else {
                            JsonModel::Null
                        },
                ),
            ),
            JsonValue::Object(es) => JsonModel::Object(
                Seq::new(
                    es@.len(),
                    |i: int|
                        if 0 <= i < es@.len() {
                            (es@[i].0@, es@[i].1.dv())
                        } else {
                            (Seq::empty(), JsonModel::Null)
                        },
                ),
            ),
        }
    }
}

} // verus!

