[package]
name = "conjure_wire"
version = "0.1.0"
edition = "2021"
publish = false

[dependencies]
serde_json = { version = "=1.0.151", features = ["preserve_order"] }
conjure-object = "=5.19.0"
conjure-http = "=5.19.0"
