[package]
name = "json_schema_1c"
version = "0.1.0"
edition = "2021"
publish = false

[dependencies]
addin1c = "=0.7.0"
jsonschema = { version = "=0.60.1", default-features = false }
serde_json = "=1.0.154"
