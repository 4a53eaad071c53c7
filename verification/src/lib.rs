//! Validation of JSON documents against JSON Schema for an embedding host:
//! a catalog of string-format predicates, a local registry of referenced
//! schemas, and the decisions around building and querying a validator.

pub mod engine;
pub mod errors;
pub mod format_laws;
pub mod formats;
pub mod json;
pub mod registry;
pub mod report;
pub mod retrieve_handler;
pub mod uri;
