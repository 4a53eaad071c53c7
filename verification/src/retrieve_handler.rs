//! The resolver that the schema compiler consults for the documents a
//! schema refers to: a registry as it stood when the build began.

use crate::json::{copy_of, json_model, JsonModel};
use crate::registry::{resolved, SchemaRegistry};
use vstd::prelude::*;
use vstd::string::StringExecFns;

verus! {

/// A source of schema documents by URI, backed by a copy of a registry.
pub struct RetrieveHandler {
    store: SchemaRegistry,
}

impl View for RetrieveHandler {
    type V = Map<Seq<char>, JsonModel>;

    /// The documents that can be retrieved, by canonical URI.
    closed spec fn view(&self) -> Map<Seq<char>, JsonModel> {
        self.store@
    }
}

/// The text that says that no document stands under `uri`.
pub open spec fn not_found_text(uri: Seq<char>) -> Seq<char> {
    "Schema "@ + uri + " not found"@
}

impl RetrieveHandler {
    /// A resolver over `store`.
    pub fn new(store: SchemaRegistry) -> (handler: RetrieveHandler)
        ensures
            handler@ == store@,
    {
        RetrieveHandler { store }
    }

    /// A copy of the document under `uri`, or the text that says that there
    /// is none. Nothing is fetched from anywhere else.
    pub fn retrieve(&self, uri: &str) -> (res: Result<serde_json::Value, String>)
        ensures
            res is Ok <==> self@.contains_key(uri@),
            res matches Ok(document) ==> resolved(self@, uri@) == Some(json_model(document)),
            res matches Err(text) ==> text@ == not_found_text(uri@),
    {
        match self.store.resolve(uri) {
            Some(document) => Ok(copy_of(document)),
            None => Err(String::from_str("Schema ").concat(uri).concat(" not found")),
        }
    }
}

impl Default for RetrieveHandler {
    /// A resolver that has no document.
    fn default() -> (handler: RetrieveHandler)
        ensures
            handler@ == Map::<Seq<char>, JsonModel>::empty(),
    {
        RetrieveHandler::new(SchemaRegistry::new())
    }
}

impl Clone for RetrieveHandler {
    /// A resolver over a copy of the same documents.
    fn clone(&self) -> (copy: RetrieveHandler)
        ensures
            copy@ == self@,
    {
        RetrieveHandler::new(self.store.snapshot())
    }
}

} // verus!
