//! The local registry of schema documents, each under the canonical URI
//! that its `"$id"` gives.

use crate::errors::JsonSchema1CError;
use crate::json::{
    copy_of, distinct_names, json_model, member_of, members_of, names, string_of, JsonModel,
};
use crate::uri::{canonical_uri, canonicalize, is_uri};
use vstd::prelude::*;
use vstd::string::StringExecFns;

verus! {

/// Why a document cannot be registered.
pub enum KeyFault {
    /// It has no `"$id"`.
    Missing,
    /// Its `"$id"` is not a string.
    NotString,
    /// Its `"$id"` is this text, which is not a URI.
    NotUri(Seq<char>),
}

/// The key under which a document is registered: the canonical form of the
/// string at its `"$id"`.
pub open spec fn document_key(document: JsonModel) -> Result<Seq<char>, KeyFault> {
    match document.member("$id"@) {
        None => Err(KeyFault::Missing),
        Some(id) => match id.string() {
            None => Err(KeyFault::NotString),
            Some(text) => match canonical_uri(text) {
                None => Err(KeyFault::NotUri(text)),
                Some(uri) => Ok(uri),
            },
        },
    }
}

/// The error that reports `fault`.
pub open spec fn reports(error: JsonSchema1CError, fault: KeyFault) -> bool {
    match fault {
        KeyFault::Missing => error is PropertyIdMissing,
        KeyFault::NotString => error is PropertyIdNotString,
        KeyFault::NotUri(text) => error matches JsonSchema1CError::InvalidUri { value }
            && value@ == text,
    }
}

/// What a registry with `contents` holds once `document` was handed to it:
/// the document is stored under its key, in place of what stood there; a
/// document without a key changes nothing.
pub open spec fn after_register(
    contents: Map<Seq<char>, JsonModel>,
    document: JsonModel,
) -> Map<Seq<char>, JsonModel> {
    match document_key(document) {
        Ok(uri) => contents.insert(uri, document),
        Err(_) => contents,
    }
}

/// What a registry with `contents` holds once `uri_text` was taken out of
/// it: a text that is no URI changes nothing.
pub open spec fn after_unregister(
    contents: Map<Seq<char>, JsonModel>,
    uri_text: Seq<char>,
) -> Map<Seq<char>, JsonModel> {
    match canonical_uri(uri_text) {
        Some(uri) => contents.remove(uri),
        None => contents,
    }
}

/// What looking up `uri` in a registry with `contents` gives.
pub open spec fn resolved(contents: Map<Seq<char>, JsonModel>, uri: Seq<char>) -> Option<
    JsonModel,
> {
    if contents.contains_key(uri) {
        Some(contents[uri])
    } else {
        None
    }
}

/// One schema document under its canonical URI.
pub struct SchemaEntry {
    uri: String,
    document: serde_json::Value,
}

/// Schema documents by canonical URI. No URI stands twice.
pub struct SchemaRegistry {
    entries: Vec<SchemaEntry>,
}

/// Whether one of `entries` stands under `uri`.
spec fn holds(entries: Seq<SchemaEntry>, uri: Seq<char>) -> bool {
    exists|i: int| 0 <= i < entries.len() && #[trigger] entries[i].uri@ == uri
}

/// A place in `entries` that stands under `uri`.
spec fn place_of(entries: Seq<SchemaEntry>, uri: Seq<char>) -> int {
    choose|i: int| 0 <= i < entries.len() && #[trigger] entries[i].uri@ == uri
}

/// No two of `entries` stand under the same URI, and every key is a URI.
spec fn well_keyed(entries: Seq<SchemaEntry>) -> bool {
    &&& forall|i: int, j: int|
        0 <= i < entries.len() && 0 <= j < entries.len() && #[trigger] entries[i].uri@
            == #[trigger] entries[j].uri@ ==> i == j
    &&& forall|i: int| 0 <= i < entries.len() ==> is_uri(#[trigger] entries[i].uri@)
}

/// The mapping that `entries` stand for.
spec fn contents_of(entries: Seq<SchemaEntry>) -> Map<Seq<char>, JsonModel> {
    Map::new(
        |uri: Seq<char>| holds(entries, uri),
        |uri: Seq<char>| json_model(entries[place_of(entries, uri)].document),
    )
}

impl View for SchemaRegistry {
    type V = Map<Seq<char>, JsonModel>;

    /// The documents that the registry holds, by canonical URI.
    closed spec fn view(&self) -> Map<Seq<char>, JsonModel> {
        contents_of(self.entries@)
    }
}

impl SchemaRegistry {
    #[verifier::type_invariant]
    spec fn well_formed(self) -> bool {
        well_keyed(self.entries@)
    }

    /// A registry that holds nothing.
    pub fn new() -> (registry: SchemaRegistry)
        ensures
            registry@ == Map::<Seq<char>, JsonModel>::empty(),
    {
        let registry = SchemaRegistry { entries: Vec::new() };
        assert(registry@ =~= Map::<Seq<char>, JsonModel>::empty());
        registry
    }

    /// The place of the entry under `uri`, if there is one.
    fn position(&self, uri: &String) -> (res: Option<usize>)
        ensures
            res is Some <==> self@.contains_key(uri@),
            res matches Some(i) ==> i < self.entries@.len() && self.entries@[i as int].uri@
                == uri@ && self@[uri@] == json_model(self.entries@[i as int].document),
    {
        proof {
            use_type_invariant(self);
        }
        let mut i: usize = 0;
        while i < self.entries.len()
            invariant
                i <= self.entries@.len(),
                well_keyed(self.entries@),
                forall|k: int| 0 <= k < i ==> #[trigger] self.entries@[k].uri@ != uri@,
            decreases self.entries@.len() - i,
        {
            if self.entries[i].uri == *uri {
                assert(holds(self.entries@, uri@));
                assert(place_of(self.entries@, uri@) == i);
                return Some(i);
            }
            i += 1;
        }
        assert(!holds(self.entries@, uri@));
        None
    }

    /// Stores `document` under the canonical URI that its `"$id"` gives, in
    /// place of the document that stood there, if any. A document without
    /// `"$id"`, with one that is no string, or with one that is no URI is
    /// refused, and the registry stays as it was.
    pub fn register(&mut self, document: serde_json::Value) -> (res: Result<(), JsonSchema1CError>)
        ensures
            final(self)@ == after_register(old(self)@, json_model(document)),
            res is Ok <==> document_key(json_model(document)) is Ok,
            res matches Err(error) ==> reports(error, document_key(json_model(document))->Err_0),
    {
        let uri: String = match member_of(&document, "$id") {
            None => { return Err(JsonSchema1CError::PropertyIdMissing); },
            Some(id) => match string_of(id) {
                None => { return Err(JsonSchema1CError::PropertyIdNotString); },
                Some(text) => match canonicalize(text) {
                    None => {
                        return Err(JsonSchema1CError::InvalidUri { value: String::from_str(text) });
                    },
                    Some(uri) => uri,
                },
            },
        };
        proof {
            use_type_invariant(&*self);
        }
        let ghost before = self.entries@;
        let ghost model = json_model(document);
        let place = self.position(&uri);
        let mut entries: Vec<SchemaEntry> = Vec::new();
        std::mem::swap(&mut self.entries, &mut entries);
        let entry = SchemaEntry { uri, document };
        match place {
            Some(i) => {
                entries.set(i, entry);
                proof {
                    lemma_replaced(before, entries@, i as int);
                }
            },
            None => {
                entries.push(entry);
                proof {
                    lemma_pushed(before, entries@);
                }
            },
        }
        self.entries = entries;
        Ok(())
    }

    /// Takes the document under the canonical form of `uri_text` out of the
    /// registry; that there is none is no error. A text that is no URI is
    /// refused, and the registry stays as it was.
    pub fn unregister(&mut self, uri_text: &str) -> (res: Result<(), JsonSchema1CError>)
        ensures
            final(self)@ == after_unregister(old(self)@, uri_text@),
            res is Ok <==> canonical_uri(uri_text@) is Some,
            res matches Err(error) ==> reports(error, KeyFault::NotUri(uri_text@)),
    {
        let uri: String = match canonicalize(uri_text) {
            None => {
                return Err(JsonSchema1CError::InvalidUri { value: String::from_str(uri_text) });
            },
            Some(uri) => uri,
        };
        proof {
            use_type_invariant(&*self);
        }
        let ghost before = self.entries@;
        match self.position(&uri) {
            Some(i) => {
                let mut entries: Vec<SchemaEntry> = Vec::new();
                std::mem::swap(&mut self.entries, &mut entries);
                entries.remove(i);
                proof {
                    lemma_removed(before, entries@, i as int);
                }
                self.entries = entries;
            },
            None => {
                assert(self@ =~= self@.remove(uri@));
            },
        }
        Ok(())
    }

    /// Takes every document out of the registry.
    pub fn clear(&mut self)
        ensures
            final(self)@ == Map::<Seq<char>, JsonModel>::empty(),
    {
        self.entries = Vec::new();
        assert(self@ =~= Map::<Seq<char>, JsonModel>::empty());
    }

    /// Whether a document stands under the canonical form of `uri_text`; a
    /// text that is no URI names none.
    pub fn contains(&self, uri_text: &str) -> (found: bool)
        ensures
            found == (canonical_uri(uri_text@) matches Some(uri) && self@.contains_key(uri)),
    {
        match canonicalize(uri_text) {
            None => false,
            Some(uri) => self.position(&uri).is_some(),
        }
    }

    /// The document under the canonical URI `uri`, if there is one.
    pub fn resolve(&self, uri: &str) -> (res: Option<&serde_json::Value>)
        ensures
            res is Some <==> self@.contains_key(uri@),
            res matches Some(document) ==> resolved(self@, uri@) == Some(json_model(*document)),
    {
        let key = String::from_str(uri);
        match self.position(&key) {
            Some(i) => Some(&self.entries[i].document),
            None => None,
        }
    }

    /// How many documents the registry holds.
    pub fn len(&self) -> (count: usize)
        ensures
            count == self@.dom().len(),
            self@.dom().finite(),
    {
        proof {
            use_type_invariant(self);
            lemma_domain_size(self.entries@);
        }
        self.entries.len()
    }

    /// Whether the registry holds nothing.
    pub fn is_empty(&self) -> (empty: bool)
        ensures
            empty == (self@ == Map::<Seq<char>, JsonModel>::empty()),
    {
        let empty = self.entries.len() == 0;
        proof {
            if empty {
                assert(self@ =~= Map::<Seq<char>, JsonModel>::empty());
            } else {
                assert(holds(self.entries@, self.entries@[0].uri@));
                assert(self@.contains_key(self.entries@[0].uri@));
            }
        }
        empty
    }

    /// A copy of the registry as it stands now; what happens to the registry
    /// afterwards does not reach the copy.
    pub fn snapshot(&self) -> (copy: SchemaRegistry)
        ensures
            copy@ == self@,
    {
        proof {
            use_type_invariant(self);
        }
        let mut entries: Vec<SchemaEntry> = Vec::new();
        let mut i: usize = 0;
        while i < self.entries.len()
            invariant
                i <= self.entries@.len(),
                entries@.len() == i,
                forall|k: int|
                    0 <= k < i ==> (#[trigger] entries@[k]).uri@ == self.entries@[k].uri@
                        && json_model(entries@[k].document) == json_model(
                        self.entries@[k].document,
                    ),
            decreases self.entries@.len() - i,
        {
            let entry = SchemaEntry {
                uri: self.entries[i].uri.clone(),
                document: copy_of(&self.entries[i].document),
            };
            entries.push(entry);
            i += 1;
        }
        proof {
            lemma_same_contents(self.entries@, entries@);
        }
        SchemaRegistry { entries }
    }

    /// The registry as a list of pairs of a URI and its document, each URI
    /// once, for inspection or to be written out.
    pub fn export(&self) -> (pairs: Vec<(String, serde_json::Value)>)
        ensures
            pairs@.len() == self@.dom().len(),
            distinct_names(pairs@),
            members_of(pairs@) == self@,
    {
        proof {
            use_type_invariant(self);
            lemma_domain_size(self.entries@);
        }
        let mut pairs: Vec<(String, serde_json::Value)> = Vec::new();
        let mut i: usize = 0;
        while i < self.entries.len()
            invariant
                i <= self.entries@.len(),
                pairs@.len() == i,
                forall|k: int|
                    0 <= k < i ==> (#[trigger] pairs@[k]).0@ == self.entries@[k].uri@
                        && json_model(pairs@[k].1) == json_model(self.entries@[k].document),
            decreases self.entries@.len() - i,
        {
            pairs.push((self.entries[i].uri.clone(), copy_of(&self.entries[i].document)));
            i += 1;
        }
        proof {
            let entries = self.entries@;
            assert forall|a: int, b: int|
                0 <= a < pairs@.len() && 0 <= b < pairs@.len() && (#[trigger] pairs@[a]).0@ == (
                #[trigger] pairs@[b]).0@ implies a == b by {
                assert(entries[a].uri@ == entries[b].uri@);
            }
            assert forall|uri: Seq<char>| names(pairs@, uri) == holds(entries, uri) by {
                if names(pairs@, uri) {
                    let k = choose|k: int| 0 <= k < pairs@.len() && (#[trigger] pairs@[k]).0@ == uri;
                    assert(entries[k].uri@ == uri);
                }
                if holds(entries, uri) {
                    let k = place_of(entries, uri);
                    assert(pairs@[k].0@ == uri);
                }
            }
            assert forall|uri: Seq<char>| names(pairs@, uri) implies members_of(pairs@)[uri]
                == self@[uri] by {
                let k = choose|k: int| 0 <= k < pairs@.len() && (#[trigger] pairs@[k]).0@ == uri;
                assert(entries[k].uri@ == uri);
                let e = place_of(entries, uri);
                assert(entries[e].uri@ == entries[k].uri@);
            }
            assert(members_of(pairs@) =~= self@);
        }
        pairs
    }
}

impl Default for SchemaRegistry {
    /// A registry that holds nothing.
    fn default() -> (registry: SchemaRegistry)
        ensures
            registry@ == Map::<Seq<char>, JsonModel>::empty(),
    {
        SchemaRegistry::new()
    }
}

impl Clone for SchemaRegistry {
    /// A copy that holds the same documents under the same URIs.
    fn clone(&self) -> (copy: SchemaRegistry)
        ensures
            copy@ == self@,
    {
        self.snapshot()
    }
}

/// A document that was registered is found under its key, and is the one
/// that was handed in.
pub proof fn lemma_register_then_resolve(contents: Map<Seq<char>, JsonModel>, document: JsonModel)
    requires
        document_key(document) is Ok,
    ensures
        resolved(after_register(contents, document), document_key(document)->Ok_0) == Some(
            document,
        ),
{
}

/// Of two documents with the same key, registered one after the other, the
/// second alone stays: the registry is as if the first had never come.
pub proof fn lemma_register_overwrites(
    contents: Map<Seq<char>, JsonModel>,
    first: JsonModel,
    second: JsonModel,
)
    requires
        document_key(first) is Ok,
        document_key(first) == document_key(second),
    ensures
        after_register(after_register(contents, first), second) == after_register(
            contents,
            second,
        ),
        resolved(
            after_register(after_register(contents, first), second),
            document_key(second)->Ok_0,
        ) == Some(second),
{
    assert(after_register(after_register(contents, first), second) =~= after_register(
        contents,
        second,
    ));
}

/// A document that was registered and then unregistered by its URI is not
/// found any more, and nothing else has left or come.
pub proof fn lemma_unregister_removes(
    contents: Map<Seq<char>, JsonModel>,
    document: JsonModel,
    uri_text: Seq<char>,
)
    requires
        document_key(document) is Ok,
        canonical_uri(uri_text) == Some(document_key(document)->Ok_0),
    ensures
        resolved(
            after_unregister(after_register(contents, document), uri_text),
            document_key(document)->Ok_0,
        ) is None,
        after_unregister(after_register(contents, document), uri_text) == contents.remove(
            document_key(document)->Ok_0,
        ),
{
    assert(after_unregister(after_register(contents, document), uri_text) =~= contents.remove(
        document_key(document)->Ok_0,
    ));
}

/// Taking out a URI under which nothing stands changes nothing.
pub proof fn lemma_unregister_absent(contents: Map<Seq<char>, JsonModel>, uri_text: Seq<char>)
    requires
        canonical_uri(uri_text) matches Some(uri) ==> !contents.contains_key(uri),
    ensures
        after_unregister(contents, uri_text) == contents,
{
    assert(after_unregister(contents, uri_text) =~= contents);
}

/// In a registry that was cleared nothing is found.
pub proof fn lemma_cleared_resolves_nothing(uri: Seq<char>)
    ensures
        resolved(Map::<Seq<char>, JsonModel>::empty(), uri) is None,
{
}

/// A document without `"$id"` has no key, and handing it to the registry
/// changes nothing.
pub proof fn lemma_register_without_id(contents: Map<Seq<char>, JsonModel>, document: JsonModel)
    requires
        document.member("$id"@) is None,
    ensures
        document_key(document) == Err::<Seq<char>, KeyFault>(KeyFault::Missing),
        after_register(contents, document) == contents,
{
}

/// Looking a document up changes nothing, and every key of the registry is
/// its own canonical form: the same text finds the document again.
pub proof fn lemma_keys_are_canonical(contents: Map<Seq<char>, JsonModel>, document: JsonModel)
    requires
        document_key(document) is Ok,
    ensures
        canonical_uri(document_key(document)->Ok_0) == Some(document_key(document)->Ok_0),
{
}

/// Two lists with the same keys and documents, place by place, stand for
/// the same mapping.
proof fn lemma_same_contents(a: Seq<SchemaEntry>, b: Seq<SchemaEntry>)
    requires
        well_keyed(a),
        a.len() == b.len(),
        forall|k: int|
            0 <= k < a.len() ==> (#[trigger] b[k]).uri@ == a[k].uri@ && json_model(b[k].document)
                == json_model(a[k].document),
    ensures
        well_keyed(b),
        contents_of(b) == contents_of(a),
{
    assert forall|i: int, j: int|
        0 <= i < b.len() && 0 <= j < b.len() && #[trigger] b[i].uri@
            == #[trigger] b[j].uri@ implies i == j by {
        assert(a[i].uri@ == a[j].uri@);
    }
    assert forall|i: int| 0 <= i < b.len() implies is_uri(#[trigger] b[i].uri@) by {
        assert(is_uri(a[i].uri@));
    }
    assert forall|uri: Seq<char>| holds(a, uri) == holds(b, uri) by {
        if holds(a, uri) {
            let i = place_of(a, uri);
            assert(b[i].uri@ == uri);
        }
        if holds(b, uri) {
            let i = place_of(b, uri);
            assert(a[i].uri@ == uri);
        }
    }
    assert forall|uri: Seq<char>| holds(a, uri) implies json_model(
        b[place_of(b, uri)].document,
    ) == json_model(a[place_of(a, uri)].document) by {
        let i = place_of(a, uri);
        assert(b[i].uri@ == uri);
        let j = place_of(b, uri);
        assert(b[j].uri@ == b[i].uri@);
    }
    assert(contents_of(b) =~= contents_of(a));
}

/// Replacing the document at one place stores it under that place's key.
proof fn lemma_replaced(before: Seq<SchemaEntry>, after: Seq<SchemaEntry>, i: int)
    requires
        well_keyed(before),
        0 <= i < before.len(),
        after == before.update(i, after[i]),
        after.len() == before.len(),
        after[i].uri@ == before[i].uri@,
    ensures
        well_keyed(after),
        contents_of(after) == contents_of(before).insert(
            after[i].uri@,
            json_model(after[i].document),
        ),
{
    assert forall|a: int, b: int|
        0 <= a < after.len() && 0 <= b < after.len() && #[trigger] after[a].uri@
            == #[trigger] after[b].uri@ implies a == b by {
        assert(before[a].uri@ == before[b].uri@);
    }
    assert forall|k: int| 0 <= k < after.len() implies is_uri(#[trigger] after[k].uri@) by {
        assert(is_uri(before[k].uri@));
    }
    let target = contents_of(before).insert(after[i].uri@, json_model(after[i].document));
    assert forall|uri: Seq<char>| holds(after, uri) == target.contains_key(uri) by {
        if holds(after, uri) {
            let k = place_of(after, uri);
            assert(before[k].uri@ == uri);
        }
        if holds(before, uri) {
            let k = place_of(before, uri);
            assert(after[k].uri@ == uri);
        }
        if uri == after[i].uri@ {
            assert(after[i].uri@ == uri);
        }
    }
    assert forall|uri: Seq<char>| holds(after, uri) implies contents_of(after)[uri]
        == target[uri] by {
        let k = place_of(after, uri);
        assert(before[k].uri@ == uri);
        let b = place_of(before, uri);
        assert(before[b].uri@ == before[k].uri@);
    }
    assert(contents_of(after) =~= target);
}

/// Adding an entry under a key that was not there stores it under that key.
proof fn lemma_pushed(before: Seq<SchemaEntry>, after: Seq<SchemaEntry>)
    requires
        well_keyed(before),
        after.len() == before.len() + 1,
        after == before.push(after.last()),
        !holds(before, after.last().uri@),
        is_uri(after.last().uri@),
    ensures
        well_keyed(after),
        contents_of(after) == contents_of(before).insert(
            after.last().uri@,
            json_model(after.last().document),
        ),
{
    let n = before.len() as int;
    assert forall|a: int, b: int|
        0 <= a < after.len() && 0 <= b < after.len() && #[trigger] after[a].uri@
            == #[trigger] after[b].uri@ implies a == b by {
        if a < n && b < n {
            assert(before[a].uri@ == before[b].uri@);
        } else if a < n {
            assert(before[a].uri@ == after[n].uri@);
        } else if b < n {
            assert(before[b].uri@ == after[n].uri@);
        }
    }
    assert forall|k: int| 0 <= k < after.len() implies is_uri(#[trigger] after[k].uri@) by {
        if k < n {
            assert(is_uri(before[k].uri@));
        }
    }
    let target = contents_of(before).insert(after[n].uri@, json_model(after[n].document));
    assert forall|uri: Seq<char>| holds(after, uri) == target.contains_key(uri) by {
        if holds(after, uri) {
            let k = place_of(after, uri);
            if k < n {
                assert(before[k].uri@ == uri);
            }
        }
        if holds(before, uri) {
            let k = place_of(before, uri);
            assert(after[k].uri@ == uri);
        }
        if uri == after[n].uri@ {
            assert(after[n].uri@ == uri);
        }
    }
    assert forall|uri: Seq<char>| holds(after, uri) implies contents_of(after)[uri]
        == target[uri] by {
        let k = place_of(after, uri);
        if k < n {
            assert(before[k].uri@ == uri);
            let b = place_of(before, uri);
            assert(before[b].uri@ == before[k].uri@);
        }
    }
    assert(contents_of(after) =~= target);
}

/// Taking the entry at one place out removes its key and nothing else.
proof fn lemma_removed(before: Seq<SchemaEntry>, after: Seq<SchemaEntry>, i: int)
    requires
        well_keyed(before),
        0 <= i < before.len(),
        after == before.remove(i),
    ensures
        well_keyed(after),
        contents_of(after) == contents_of(before).remove(before[i].uri@),
{
    let shift = |k: int| if k < i { k } else { k + 1 };
    assert forall|k: int| 0 <= k < after.len() implies #[trigger] after[k] == before[shift(k)] by {}
    assert forall|a: int, b: int|
        0 <= a < after.len() && 0 <= b < after.len() && #[trigger] after[a].uri@
            == #[trigger] after[b].uri@ implies a == b by {
        assert(before[shift(a)].uri@ == before[shift(b)].uri@);
    }
    assert forall|k: int| 0 <= k < after.len() implies is_uri(#[trigger] after[k].uri@) by {
        assert(is_uri(before[shift(k)].uri@));
    }
    let target = contents_of(before).remove(before[i].uri@);
    assert forall|uri: Seq<char>| holds(after, uri) == target.contains_key(uri) by {
        if holds(after, uri) {
            let k = place_of(after, uri);
            assert(before[shift(k)].uri@ == uri);
            if uri == before[i].uri@ {
                assert(before[shift(k)].uri@ == before[i].uri@);
            }
        }
        if holds(before, uri) && uri != before[i].uri@ {
            let k = place_of(before, uri);
            let back = if k < i { k } else { k - 1 };
            assert(after[back] == before[shift(back)]);
            assert(after[back].uri@ == uri);
        }
    }
    assert forall|uri: Seq<char>| holds(after, uri) implies contents_of(after)[uri]
        == target[uri] by {
        let k = place_of(after, uri);
        assert(before[shift(k)].uri@ == uri);
        let b = place_of(before, uri);
        assert(before[b].uri@ == before[shift(k)].uri@);
    }
    assert(contents_of(after) =~= target);
}

/// A registry holds as many keys as it has entries.
proof fn lemma_domain_size(entries: Seq<SchemaEntry>)
    requires
        well_keyed(entries),
    ensures
        contents_of(entries).dom().finite(),
        contents_of(entries).dom().len() == entries.len(),
    decreases entries.len(),
{
    if entries.len() == 0 {
        assert(contents_of(entries).dom() =~= Set::<Seq<char>>::empty());
    } else {
        let rest = entries.drop_last();
        let last = entries.last();
        assert(entries == rest.push(last));
        assert forall|a: int, b: int|
            0 <= a < rest.len() && 0 <= b < rest.len() && #[trigger] rest[a].uri@
                == #[trigger] rest[b].uri@ implies a == b by {
            assert(entries[a].uri@ == entries[b].uri@);
        }
        assert forall|k: int| 0 <= k < rest.len() implies is_uri(#[trigger] rest[k].uri@) by {
            assert(is_uri(entries[k].uri@));
        }
        lemma_domain_size(rest);
        if holds(rest, last.uri@) {
            let k = place_of(rest, last.uri@);
            assert(entries[k].uri@ == entries[entries.len() - 1].uri@);
        }
        lemma_pushed(rest, entries);
        assert(contents_of(entries).dom() =~= contents_of(rest).dom().insert(last.uri@));
    }
}

} // verus!
