//! JSON documents, as far as the list of sinks needs them.
//!
//! Parsing is done by `serde_json`. What its functions return is taken on trust, and
//! stated here over [`Json`].
use vstd::prelude::*;

verus! {

/// What a JSON value holds, as far as this library reads it.
pub enum Json {
    Text(Seq<char>),
    List(Seq<Json>),
    Table(Map<Seq<char>, Json>),
    /// Null, a number or a truth value.
    Other,
}

/// The entry of `value` under `key`; `Other` where there is none.
pub open spec fn member(value: Json, key: Seq<char>) -> Json {
    match value {
        Json::Table(entries) => if entries.dom().contains(key) {
            entries[key]
        } else {
            Json::Other
        },
        _ => Json::Other,
    }
}

/// The text that `value` is; the empty text where it is none.
pub open spec fn text_or_empty(value: Json) -> Seq<char> {
    match value {
        Json::Text(s) => s,
        _ => seq![],
    }
}

/// The JSON values of `serde_json`.
#[verifier::external_type_specification]
#[verifier::external_body]
pub struct ExJsonValue(serde_json::Value);

/// The errors of `serde_json`.
#[verifier::external_type_specification]
#[verifier::external_body]
pub struct ExJsonError(serde_json::Error);

/// What a `serde_json::Value` holds.
pub uninterp spec fn json_content(value: serde_json::Value) -> Json;

/// What `serde_json::from_str` reads from a text; `None` where it reports an error.
pub uninterp spec fn json_text(text: Seq<char>) -> Option<Json>;

/// `serde_json::from_str`, for a value of any shape: whether it succeeds and what the value
/// then holds depends on the text alone. Which texts are JSON is not stated.
#[verifier::external_body]
pub(crate) fn parse_json(text: &str) -> (r: Result<serde_json::Value, serde_json::Error>)
    ensures
        r is Ok <==> json_text(text@) is Some,
        r matches Ok(v) ==> json_text(text@) == Some(json_content(v)),
{
    serde_json::from_str(text)
}

/// `serde_json::Value::as_array` gives the items of a list, in order, and nothing for any
/// other value.
pub assume_specification[ serde_json::Value::as_array ](value: &serde_json::Value) -> (r: Option<
    &Vec<serde_json::Value>,
>)
    ensures
        r is Some <==> json_content(*value) is List,
        r matches Some(items) ==> json_content(*value) == Json::List(
            items@.map_values(|item: serde_json::Value| json_content(item)),
        ),
;

/// `serde_json::Value::as_str` gives the text of a string, and nothing for any other value.
pub assume_specification[ serde_json::Value::as_str ](value: &serde_json::Value) -> (r: Option<
    &str,
>)
    ensures
        r is Some <==> json_content(*value) is Text,
        r matches Some(s) ==> json_content(*value) == Json::Text(s@),
;

/// Indexing a `serde_json::Value` by a string gives the entry of an object under that key,
/// and the null value where there is no such entry or no object. It does not panic.
#[verifier::external_body]
pub(crate) fn json_member<'a>(value: &'a serde_json::Value, key: &str) -> (r:
    &'a serde_json::Value)
    ensures
        json_content(*r) == member(json_content(*value), key@),
{
    &value[key]
}

/// The text under `key`; the empty text where there is none.
pub(crate) fn text_member<'a>(value: &'a serde_json::Value, key: &str) -> (r: &'a str)
    ensures
        r@ == text_or_empty(member(json_content(*value), key@)),
{
    match json_member(value, key).as_str() {
        Some(s) => s,
        None => {
            proof {
                reveal_strlit("");
                assert(""@ =~= seq![]);
            }
            ""
        },
    }
}

} // verus!
