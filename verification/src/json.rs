//! Reading fields of JSON documents with serde_json.
//!
//! What serde_json parses is not modelled here: each accessor's result is
//! named by a spec function of the document's text and the key, and the
//! library's contracts speak through those names.

use vstd::prelude::*;

verus! {

/// Whether serde_json reads `text` as a JSON document.
pub uninterp spec fn json_valid(text: Seq<char>) -> bool;

/// The string that serde_json finds under `key` in the JSON document
/// `text`: `None` when `text` is not JSON, is not an object, lacks the key,
/// or holds a non-string there.
pub uninterp spec fn json_string_field(text: Seq<char>, key: Seq<char>) -> Option<Seq<char>>;

/// The elements of the array that serde_json finds under `key` in the JSON
/// document `text`, each written back as JSON text: `None` when `text` is
/// not JSON, is not an object, lacks the key, or holds a non-array there.
pub uninterp spec fn json_array_field(text: Seq<char>, key: Seq<char>) -> Option<Seq<Seq<char>>>;

/// The model of an optional string.
pub open spec fn option_text(s: Option<String>) -> Option<Seq<char>> {
    match s {
        Some(x) => Some(x@),
        None => None,
    }
}

/// The model of an optional list of strings.
pub open spec fn option_texts(s: Option<Vec<String>>) -> Option<Seq<Seq<char>>> {
    match s {
        Some(v) => Some(v@.map_values(|x: String| x@)),
        None => None,
    }
}

/// Whether `text` is a JSON document, by `serde_json::from_str::<Value>`.
///
/// Trusted: the result depends on `text` alone and is named by
/// `json_valid`.
#[verifier::external_body]
pub fn json_valid_of(text: &str) -> (ok: bool)
    ensures
        ok == json_valid(text@),
{
    serde_json::from_str::<serde_json::Value>(text).is_ok()
}

/// Looks up a string field of a JSON object with serde_json
/// (`from_str::<Value>`, `Value::get`, `Value::as_str`).
///
/// Trusted: the result depends on `text` and `key` alone and is named by
/// `json_string_field`.
#[verifier::external_body]
pub fn json_string_field_of(text: &str, key: &str) -> (res: Option<String>)
    ensures
        option_text(res) == json_string_field(text@, key@),
{
    match serde_json::from_str::<serde_json::Value>(text) {
        Ok(v) => v.get(key).and_then(|f| f.as_str()).map(|s| s.to_string()),
        Err(_) => None,
    }
}

/// Looks up an array field of a JSON object with serde_json
/// (`from_str::<Value>`, `Value::get`, `Value::as_array`), each element
/// written back as JSON text (`Value::to_string`).
///
/// Trusted: the result depends on `text` and `key` alone and is named by
/// `json_array_field`.
#[verifier::external_body]
pub fn json_array_field_of(text: &str, key: &str) -> (res: Option<Vec<String>>)
    ensures
        option_texts(res) == json_array_field(text@, key@),
{
    match serde_json::from_str::<serde_json::Value>(text) {
        Ok(v) => v.get(key).and_then(|f| f.as_array()).map(|a| a.iter().map(|x| x.to_string()).collect()),
        Err(_) => None,
    }
}

} // verus!
