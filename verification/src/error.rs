//! The decode error taxonomy: every deviation from the wire contract is
//! a hard failure carrying the offending name or token.

use vstd::prelude::*;

verus! {

/// Why a decode failed.
#[derive(Debug, PartialEq, Eq)]
pub enum DecodeError {
    /// A record key outside the record's field set; carries the key.
    UnknownField(String),
    /// A required entry was absent; carries the missing key or variant.
    MissingField(String),
    /// A value disagreed with what another part of the input promised;
    /// carries what was found and what was expected.
    InvalidValue { found: String, expected: String },
    /// A tagged union held more than its two entries.
    InvalidLength,
    /// A byte-buffer string that is not base64.
    InvalidBase64,
    /// A string standing for a floating-point value that is none of the
    /// three special names.
    InvalidFloat,
    /// A string that no variant of a closed enum matches, or that fails
    /// the identifier allow-list in the open case; carries the string.
    UnknownVariant(String),
    /// The JSON shape differs from the one the declared type requires;
    /// carries the expected shape's name.
    WrongType(String),
}

/// The mathematical shape of a decode error, with strings as character
/// sequences.
pub enum ErrorModel {
    UnknownField(Seq<char>),
    MissingField(Seq<char>),
    InvalidValue { found: Seq<char>, expected: Seq<char> },
    InvalidLength,
    InvalidBase64,
    InvalidFloat,
    UnknownVariant(Seq<char>),
    WrongType(Seq<char>),
}

impl DecodeError {
    /// The mathematical shape of this error.
    pub open spec fn dv(self) -> ErrorModel {
        match self {
            DecodeError::UnknownField(k) => ErrorModel::UnknownField(k@),
            DecodeError::MissingField(k) => ErrorModel::MissingField(k@),
            DecodeError::InvalidValue { found, expected } => ErrorModel::InvalidValue {
                found: found@,
                expected: expected@,
            },
            DecodeError::InvalidLength => ErrorModel::InvalidLength,
            DecodeError::InvalidBase64 => ErrorModel::InvalidBase64,
            DecodeError::InvalidFloat => ErrorModel::InvalidFloat,
            DecodeError::UnknownVariant(s) => ErrorModel::UnknownVariant(s@),
            DecodeError::WrongType(s) => ErrorModel::WrongType(s@),
        }
    }
}

impl DecodeError {
    /// A human-readable cause, carrying the offending name or token.
    pub fn message(&self) -> (r: String)
        ensures
            r@ == spec_message(self.dv()),
    {
        match self {
            DecodeError::UnknownField(k) => {
                let mut m = String::from_str("unknown field ");
                m.append(k.as_str());
                m
            },
            DecodeError::MissingField(k) => {
                let mut m = String::from_str("missing field ");
                m.append(k.as_str());
                m
            },
            DecodeError::InvalidValue { found, expected } => {
                let mut m = String::from_str("invalid value: found ");
                m.append(found.as_str());
                m.append(", expected ");
                m.append(expected.as_str());
                m
            },
            DecodeError::InvalidLength => String::from_str(
                "invalid length: expected type and value fields",
            ),
            DecodeError::InvalidBase64 => String::from_str("invalid base64"),
            DecodeError::InvalidFloat => String::from_str(
                "expected a number or one of the non-finite names",
            ),
            DecodeError::UnknownVariant(v) => {
                let mut m = String::from_str("unknown variant ");
                m.append(v.as_str());
                m
            },
            DecodeError::WrongType(t) => {
                let mut m = String::from_str("expected ");
                m.append(t.as_str());
                m
            },
        }
    }
}

/// The text of each error's message.
pub open spec fn spec_message(e: ErrorModel) -> Seq<char> {
    match e {
        ErrorModel::UnknownField(k) => "unknown field "@ + k,
        ErrorModel::MissingField(k) => "missing field "@ + k,
        ErrorModel::InvalidValue { found, expected } => "invalid value: found "@ + found
            + ", expected "@ + expected,
        ErrorModel::InvalidLength => "invalid length: expected type and value fields"@,
        ErrorModel::InvalidBase64 => "invalid base64"@,
        ErrorModel::InvalidFloat => "expected a number or one of the non-finite names"@,
        ErrorModel::UnknownVariant(v) => "unknown variant "@ + v,
        ErrorModel::WrongType(t) => "expected "@ + t,
    }
}

} // verus!
