//! The loader: JSON text to a document, and the view of a document as a tree.
//!
//! Parsing and printing are `serde_json`'s. A [`JsonDocument`] holds the
//! parsed `serde_json::Value`; contracts speak of it through its view, a
//! [`JsonTree`].

use crate::error::ConversionError;
use vstd::prelude::*;

verus! {

/// A JSON value as a mathematical tree.
///
/// A number is held as its JSON text. The entries of an object are in the
/// order in which the object yields them.
pub enum JsonTree {
    Null,
    Bool(bool),
    Number(Seq<char>),
    Text(Seq<char>),
    Array(Seq<JsonTree>),
    Object(Seq<(Seq<char>, JsonTree)>),
}

/// `serde_json::Value`, held as it is: nothing inside it is visible here.
#[verifier::external_type_specification]
#[verifier::external_body]
pub struct ExValue(serde_json::Value);

/// `serde_json::Map`, the entries of a JSON object, held as it is.
#[verifier::external_type_specification]
#[verifier::external_body]
#[verifier::reject_recursive_types(K)]
#[verifier::reject_recursive_types(V)]
pub struct ExMap<K, V>(serde_json::Map<K, V>);

/// `serde_json::Error`, the fault that the parser reports.
#[verifier::external_type_specification]
#[verifier::external_body]
pub struct ExError(serde_json::Error);

/// The tree that a `serde_json::Value` holds.
pub uninterp spec fn value_tree(value: serde_json::Value) -> JsonTree;

/// The entries of a `serde_json::Map`, in the order in which it yields them.
pub uninterp spec fn map_entries(map: serde_json::Map<String, serde_json::Value>) -> Seq<
    (Seq<char>, JsonTree),
>;

/// What `serde_json::from_str` makes of a text: the tree of the value it
/// parses, or the description of the fault it reports.
pub uninterp spec fn parsed_json(text: Seq<char>) -> Result<JsonTree, Seq<char>>;

/// The compact JSON text that `serde_json` prints for a value.
pub uninterp spec fn json_text(tree: JsonTree) -> Seq<char>;

/// The description that a `serde_json::Error` displays.
pub uninterp spec fn error_text(error: serde_json::Error) -> Seq<char>;

/// The trees of a sequence of values.
pub open spec fn value_trees(values: Seq<serde_json::Value>) -> Seq<JsonTree> {
    values.map_values(|value: serde_json::Value| value_tree(value))
}

/// The keys of an object's entries, in order.
pub open spec fn entry_keys(entries: Seq<(Seq<char>, JsonTree)>) -> Seq<Seq<char>> {
    entries.map_values(|entry: (Seq<char>, JsonTree)| entry.0)
}

/// The value stored under `key`, if any entry has that key.
pub open spec fn lookup(entries: Seq<(Seq<char>, JsonTree)>, key: Seq<char>) -> Option<JsonTree>
    decreases entries.len(),
{
    if entries.len() == 0 {
        None
    } else if entries[0].0 == key {
        Some(entries[0].1)
    } else {
        lookup(entries.drop_first(), key)
    }
}

/// The views of a vector of strings.
pub open spec fn strings_view(strings: Seq<String>) -> Seq<Seq<char>> {
    strings.map_values(|text: String| text@)
}

/// `serde_json::from_str` at type `Value`. The contract names the outcome:
/// the same text always parses to the same tree or fails with the same
/// description.
#[verifier::external_body]
fn parse_value(text: &str) -> (r: Result<serde_json::Value, serde_json::Error>)
    ensures
        match r {
            Ok(value) => parsed_json(text@) == Ok::<JsonTree, Seq<char>>(value_tree(value)),
            Err(error) => parsed_json(text@) == Err::<JsonTree, Seq<char>>(error_text(error)),
        },
{
    serde_json::from_str(text)
}

/// `Display` of `serde_json::Error`, through `to_string`.
#[verifier::external_body]
fn describe_error(error: &serde_json::Error) -> (text: String)
    ensures
        text@ == error_text(*error),
{
    error.to_string()
}

/// `Value::as_array` returns the elements exactly when the value is an array.
pub assume_specification[ serde_json::Value::as_array ](value: &serde_json::Value) -> (r: Option<
    &Vec<serde_json::Value>,
>)
    ensures
        match r {
            Some(items) => value_tree(*value) == JsonTree::Array(value_trees(items@)),
            None => !(value_tree(*value) is Array),
        },
;

/// `Value::as_object` returns the map exactly when the value is an object.
pub assume_specification[ serde_json::Value::as_object ](value: &serde_json::Value) -> (r: Option<
    &serde_json::Map<String, serde_json::Value>,
>)
    ensures
        match r {
            Some(map) => value_tree(*value) == JsonTree::Object(map_entries(*map)),
            None => !(value_tree(*value) is Object),
        },
;

/// `Map::keys`, collected: the keys in the map's own order. A map holds
/// each key once, so no key occurs twice among them.
#[verifier::external_body]
pub(crate) fn object_keys(map: &serde_json::Map<String, serde_json::Value>) -> (keys: Vec<String>)
    ensures
        strings_view(keys@) == entry_keys(map_entries(*map)),
        strings_view(keys@).no_duplicates(),
{
    map.keys().cloned().collect()
}

/// `Map::get` with a string key: the value stored under that key, if any.
#[verifier::external_body]
pub(crate) fn object_get<'a>(
    map: &'a serde_json::Map<String, serde_json::Value>,
    key: &str,
) -> (r: Option<&'a serde_json::Value>)
    ensures
        match r {
            Some(value) => lookup(map_entries(*map), key@) == Some(value_tree(*value)),
            None => lookup(map_entries(*map), key@) is None,
        },
{
    map.get(key)
}

/// `Display` of `serde_json::Value`, through `to_string`: the compact JSON
/// text of the value.
#[verifier::external_body]
pub(crate) fn value_text(value: &serde_json::Value) -> (text: String)
    ensures
        text@ == json_text(value_tree(*value)),
{
    value.to_string()
}

/// A parsed JSON document. Its view is the tree of the parsed value.
pub struct JsonDocument {
    value: serde_json::Value,
}

impl View for JsonDocument {
    type V = JsonTree;

    closed spec fn view(&self) -> JsonTree {
        value_tree(self.value)
    }
}

impl JsonDocument {
    pub(crate) fn value(&self) -> (value: &serde_json::Value)
        ensures
            value_tree(*value) == self@,
    {
        &self.value
    }
}

/// Parses `source` as one JSON value.
///
/// Malformed text gives `ConversionError::Parse` with the parser's
/// description; nothing is repaired.
pub fn load(source: &str) -> (r: Result<JsonDocument, ConversionError>)
    ensures
        match r {
            Ok(document) => parsed_json(source@) == Ok::<JsonTree, Seq<char>>(document@),
            Err(error) => error@ is Parse && parsed_json(source@) == Err::<JsonTree, Seq<char>>(
                error@->Parse_0,
            ),
        },
{
    match parse_value(source) {
        Ok(value) => Ok(JsonDocument { value }),
        Err(error) => Err(ConversionError::Parse(describe_error(&error))),
    }
}

} // verus!
