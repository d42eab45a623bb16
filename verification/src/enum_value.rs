//! The open string-enum wire protocol.
//!
//! An enum travels as a plain JSON string. A closed definition rejects
//! every string outside its value set; a non-exhaustive one keeps such a
//! string as a synthetic unknown variant, provided it passes the
//! identifier allow-list.

use vstd::prelude::*;

verus! {

use crate::codec::{
    field_index, fields_dv, lemma_field_index_found, lemma_field_index_none, spec_field_index,
};
use crate::error::{DecodeError, ErrorModel};
use crate::json::{JsonModel, JsonValue};
use crate::text::{spec_valid_variant, valid_variant};

/// The shape of a string enum: its declared wire strings, in order, and
/// whether strings outside that set are rejected outright.
pub struct EnumDefinition {
    /// The declared values' wire strings.
    pub values: Vec<String>,
    /// When set, any string outside `values` is a parse error; when
    /// clear, such a string may become an unknown variant.
    pub exhaustive: bool,
}

/// The mathematical shape of an enum definition.
pub struct EnumDefModel {
    pub values: Seq<Seq<char>>,
    pub exhaustive: bool,
}

impl EnumDefinition {
    /// The mathematical shape of this definition.
    pub open spec fn dv(self) -> EnumDefModel {
        EnumDefModel { values: fields_dv(self.values@), exhaustive: self.exhaustive }
    }
}

/// A well-formed definition declares each wire string once.
pub open spec fn spec_enum_def_wf(def: EnumDefModel) -> bool {
    forall|i: int, j: int|
        0 <= i < j < def.values.len() ==> #[trigger] def.values[i] != #[trigger] def.values[j]
}

/// A value of a string enum: one of the declared values, by position,
/// or a kept unknown string.
#[derive(Debug, Clone, PartialEq, Eq)]
pub enum EnumValue {
    /// The declared value at this position of the definition.
    Known(usize),
    /// An unknown variant.
    Unknown(String),
}

/// The mathematical shape of an enum value.
pub enum EnumModel {
    Known(int),
    Unknown(Seq<char>),
}

impl EnumValue {
    /// The mathematical shape of this value.
    pub open spec fn dv(self) -> EnumModel {
        match self {
            EnumValue::Known(i) => EnumModel::Known(i as int),
            EnumValue::Unknown(s) => EnumModel::Unknown(s@),
        }
    }
}

/// A representable value of a definition: a declared position, or, in
/// the non-exhaustive case alone, an allowed unknown string that names
/// no declared value.
pub open spec fn spec_enum_wf(def: EnumDefModel, v: EnumModel) -> bool {
    match v {
        EnumModel::Known(i) => 0 <= i < def.values.len(),
        EnumModel::Unknown(s) => {
            &&& !def.exhaustive
            &&& spec_valid_variant(s)
            &&& spec_field_index(def.values, s) == -1
        },
    }
}

/// The wire string of an enum value.
pub open spec fn spec_enum_str(def: EnumDefModel, v: EnumModel) -> Seq<char>
    recommends
        spec_enum_wf(def, v),
{
    match v {
        EnumModel::Known(i) => def.values[i],
        EnumModel::Unknown(s) => s,
    }
}

/// What parsing a wire string returns: the first declared value it
/// matches; otherwise, when the definition is open and the string
/// passes the allow-list, the unknown variant; otherwise an error
/// naming the string.
pub open spec fn spec_enum_parse(def: EnumDefModel, s: Seq<char>) -> Result<
    EnumModel,
    ErrorModel,
> {
    let i = spec_field_index(def.values, s);
    if i != -1 {
        Ok(EnumModel::Known(i))
    } else if !def.exhaustive && spec_valid_variant(s) {
        Ok(EnumModel::Unknown(s))
    } else {
        Err(ErrorModel::UnknownVariant(s))
    }
}

impl EnumDefinition {
    /// The wire string of a representable value of this definition.
    pub fn value_str<'a>(&'a self, v: &'a EnumValue) -> (r: &'a str)
        requires
            spec_enum_wf(self.dv(), v.dv()),
        ensures
            r@ == spec_enum_str(self.dv(), v.dv()),
    {
        match v {
            EnumValue::Known(i) => self.values[*i].as_str(),
            EnumValue::Unknown(s) => s.as_str(),
        }
    }

    /// Parses a wire string against this definition.
    pub fn parse(&self, s: &str) -> (r: Result<EnumValue, DecodeError>)
        ensures
            match r {
                Ok(v) => spec_enum_parse(self.dv(), s@) == Ok::<EnumModel, ErrorModel>(v.dv()),
                Err(e) => spec_enum_parse(self.dv(), s@) == Err::<EnumModel, ErrorModel>(
                    e.dv(),
                ),
            },
    {
        let key = s.to_owned();
        match field_index(&self.values, &key) {
            Some(i) => Ok(EnumValue::Known(i)),
            None => {
                if !self.exhaustive && valid_variant(s) {
                    Ok(EnumValue::Unknown(key))
                } else {
                    Err(DecodeError::UnknownVariant(key))
                }
            },
        }
    }

    /// Decodes an enum from its JSON form, a plain string.
    pub fn decode_json(&self, v: JsonValue) -> (r: Result<EnumValue, DecodeError>)
        ensures
            match r {
                Ok(ev) => v matches JsonValue::String(s) && spec_enum_parse(self.dv(), s@)
                    == Ok::<EnumModel, ErrorModel>(ev.dv()),
                Err(e) => match v {
                    JsonValue::String(s) => spec_enum_parse(self.dv(), s@) == Err::<
                        EnumModel,
                        ErrorModel,
                    >(e.dv()),
                    _ => e.dv() == ErrorModel::WrongType("string"@),
                },
            },
    {
        match v {
            JsonValue::String(s) => self.parse(s.as_str()),
            _ => Err(DecodeError::WrongType(String::from_str("string"))),
        }
    }

    /// Encodes a representable value of this definition as its JSON
    /// form, a plain string.
    pub fn encode_json(&self, v: &EnumValue) -> (r: JsonValue)
        requires
            spec_enum_wf(self.dv(), v.dv()),
        ensures
            r.dv() == JsonModel::String(spec_enum_str(self.dv(), v.dv())),
    {
        JsonValue::String(self.value_str(v).to_owned())
    }
}

/// Parsing the wire string of a representable value returns that value,
/// the unknown variant included.
pub proof fn lemma_enum_round_trip(def: EnumDefModel, v: EnumModel)
    requires
        spec_enum_def_wf(def),
        spec_enum_wf(def, v),
    ensures
        spec_enum_parse(def, spec_enum_str(def, v)) == Ok::<EnumModel, ErrorModel>(v),
{
    match v {
        EnumModel::Known(i) => {
            lemma_field_index_found(def.values, def.values[i], i);
        },
        EnumModel::Unknown(_) => {
        },
    }
}

} // verus!
