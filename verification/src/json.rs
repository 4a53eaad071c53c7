//! JSON documents. The documents themselves are values of `serde_json`;
//! contracts speak of them through a mathematical model of what they hold.

use vstd::prelude::*;

verus! {

/// `serde_json::Value`, a JSON document. Nothing inside it is visible to a
/// proof; what it holds is spoken of through `json_model`.
#[verifier::external_type_specification]
#[verifier::external_body]
pub struct ExValue(serde_json::Value);

/// What a JSON document holds. A number is kept as the text that writes it.
pub enum JsonModel {
    Null,
    Bool(bool),
    Number(Seq<char>),
    String(Seq<char>),
    Array(Seq<JsonModel>),
    Object(Map<Seq<char>, JsonModel>),
}

/// What the document `value` holds.
pub uninterp spec fn json_model(value: serde_json::Value) -> JsonModel;

/// What reading `text` as JSON gives: the document, or the message that
/// says why it is none.
pub uninterp spec fn json_read(text: Seq<char>) -> Result<JsonModel, Seq<char>>;

/// The compact JSON text of a document.
pub uninterp spec fn json_text(model: JsonModel) -> Seq<char>;

impl JsonModel {
    /// The member `key` of an object; `None` for a missing member and for
    /// anything but an object.
    pub open spec fn member(self, key: Seq<char>) -> Option<JsonModel> {
        match self {
            JsonModel::Object(members) => if members.contains_key(key) {
                Some(members[key])
            } else {
                None
            },
            _ => None,
        }
    }

    /// The text of a string; `None` for anything else.
    pub open spec fn string(self) -> Option<Seq<char>> {
        match self {
            JsonModel::String(text) => Some(text),
            _ => None,
        }
    }
}

/// The array of the strings `items`.
pub open spec fn string_array(items: Seq<String>) -> JsonModel {
    JsonModel::Array(Seq::new(items.len(), |i: int| JsonModel::String(items[i]@)))
}

/// No two of `pairs` have the same name.
pub open spec fn distinct_names(pairs: Seq<(String, serde_json::Value)>) -> bool {
    forall|i: int, j: int|
        0 <= i < pairs.len() && 0 <= j < pairs.len() && (#[trigger] pairs[i]).0@ == (
        #[trigger] pairs[j]).0@ ==> i == j
}

/// Whether one of `pairs` has the name `name`.
pub open spec fn names(pairs: Seq<(String, serde_json::Value)>, name: Seq<char>) -> bool {
    exists|i: int| 0 <= i < pairs.len() && (#[trigger] pairs[i]).0@ == name
}

/// The members of the object that `pairs` list, each a name with what its
/// document holds.
pub open spec fn members_of(pairs: Seq<(String, serde_json::Value)>) -> Map<Seq<char>, JsonModel> {
    Map::new(
        |name: Seq<char>| names(pairs, name),
        |name: Seq<char>|
            json_model(
                pairs[choose|i: int| 0 <= i < pairs.len() && (#[trigger] pairs[i]).0@ == name].1,
            ),
    )
}

/// What a reading that ended in `res` has given, as a model.
pub open spec fn read_outcome(res: Result<serde_json::Value, String>) -> Result<
    JsonModel,
    Seq<char>,
> {
    match res {
        Ok(value) => Ok(json_model(value)),
        Err(message) => Err(message@),
    }
}

/// `serde_json::from_str` for a `Value`: the document that `text` writes,
/// or the text of the error that `serde_json` reports. Both depend on
/// `text` alone.
#[verifier::external_body]
pub(crate) fn read_json(text: &str) -> (res: Result<serde_json::Value, String>)
    ensures
        read_outcome(res) == json_read(text@),
{
    match serde_json::from_str::<serde_json::Value>(text) {
        Ok(value) => Ok(value),
        Err(error) => Err(error.to_string()),
    }
}

/// `serde_json::Value::get` with a string index: the member of that name
/// where the document is an object that has one, `None` otherwise.
#[verifier::external_body]
pub(crate) fn member_of<'a>(document: &'a serde_json::Value, key: &str) -> (res: Option<
    &'a serde_json::Value,
>)
    ensures
        res is Some <==> json_model(*document).member(key@) is Some,
        res matches Some(member) ==> json_model(*document).member(key@) == Some(
            json_model(*member),
        ),
{
    document.get(key)
}

/// `serde_json::Value::as_str`: the text where the document is a string,
/// `None` otherwise.
#[verifier::external_body]
pub(crate) fn string_of<'a>(value: &'a serde_json::Value) -> (res: Option<&'a str>)
    ensures
        res is Some <==> json_model(*value).string() is Some,
        res matches Some(text) ==> json_model(*value).string() == Some(text@),
{
    value.as_str()
}

/// `Clone` of `serde_json::Value`: a document that holds the same.
#[verifier::external_body]
pub(crate) fn copy_of(value: &serde_json::Value) -> (res: serde_json::Value)
    ensures
        json_model(res) == json_model(*value),
{
    value.clone()
}

/// `serde_json::to_string` on a list of strings: the compact JSON text of
/// the array that holds them. Writing strings cannot fail.
#[verifier::external_body]
pub(crate) fn strings_to_json(items: &Vec<String>) -> (res: String)
    ensures
        res@ == json_text(string_array(items@)),
{
    serde_json::to_string(items).unwrap_or_default()
}

/// `serde_json::to_string` on the object whose members are `pairs`: its
/// compact JSON text.
#[verifier::external_body]
pub(crate) fn object_to_json(pairs: &Vec<(String, serde_json::Value)>) -> (res: String)
    requires
        distinct_names(pairs@),
    ensures
        res@ == json_text(JsonModel::Object(members_of(pairs@))),
{
    let members: serde_json::Map<String, serde_json::Value> = pairs.iter().cloned().collect();
    serde_json::to_string(&serde_json::Value::Object(members)).unwrap_or_default()
}

} // verus!
