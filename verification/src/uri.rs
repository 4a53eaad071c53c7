//! URIs as keys: a text is made canonical by parsing it as a URI.

use vstd::prelude::*;

verus! {

/// Whether `text` is a URI by the grammar of RFC 3986.
pub uninterp spec fn is_uri(text: Seq<char>) -> bool;

/// `Uri::parse` of `fluent_uri`, as `jsonschema` hands it on: `Some` where
/// `text` is a URI, and then the parsed URI's own text, which is `text`
/// unchanged; `None` where the grammar refuses it.
#[verifier::external_body]
pub(crate) fn parse_uri(text: &str) -> (res: Option<String>)
    ensures
        res is Some <==> is_uri(text@),
        res matches Some(uri) ==> uri@ == text@,
{
    match jsonschema::Uri::parse(text.to_string()) {
        Ok(uri) => Some(uri.into_string()),
        Err(_) => None,
    }
}

/// The canonical form of `text` as a key of the registry, where it has one.
pub open spec fn canonical_uri(text: Seq<char>) -> Option<Seq<char>> {
    if is_uri(text) {
        Some(text)
    } else {
        None
    }
}

/// Makes `text` canonical: every key of the registry, stored or looked up,
/// comes from here.
pub fn canonicalize(text: &str) -> (res: Option<String>)
    ensures
        res is Some <==> canonical_uri(text@) is Some,
        res matches Some(uri) ==> canonical_uri(text@) == Some(uri@),
{
    parse_uri(text)
}

/// A canonical form is its own canonical form.
pub proof fn lemma_canonical_is_fixed(text: Seq<char>)
    requires
        canonical_uri(text) is Some,
    ensures
        canonical_uri(canonical_uri(text)->0) == canonical_uri(text),
{
}

} // verus!
