//! Conjure wire-format codec and client binding model.
//!
//! The crate models JSON documents as trees, imposes the Conjure wire
//! conventions on them (strict record fields, special floating-point
//! encodings, base64 byte buffers, tagged unions and open string enums),
//! and derives, from a declarative endpoint description, the HTTP request
//! shape and response interpretation that generated clients follow.


pub mod b64;
pub mod client;
pub mod codec;
pub mod endpoint;
pub mod endpoint_json;
pub mod enum_value;
pub mod error;
pub mod json;
pub mod text;
pub mod union_value;

pub use json::JsonValue;
