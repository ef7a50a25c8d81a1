//! JSON as the wallet reads it: texts are parsed by `serde_json`, and of a
//! parsed value only what the functions below tell is known.

use vstd::prelude::*;

verus! {

/// A parsed JSON value of `serde_json`. Nothing of it is visible here; it is
/// read through the functions below.
#[verifier::external_type_specification]
#[verifier::external_body]
pub struct ExJsonValue(serde_json::Value);

/// A JSON value.
pub enum Json {
    Null,
    Bool(bool),
    /// A number, by the text that stands for it.
    Number(Seq<char>),
    Text(Seq<char>),
    Array(Seq<Json>),
    Object(Map<Seq<char>, Json>),
}

/// The JSON value that a parsed value of `serde_json` holds.
pub uninterp spec fn json_of(value: serde_json::Value) -> Json;

/// The JSON value that `serde_json` reads from a text, or `None` where it
/// rejects the text.
pub uninterp spec fn json_parsed(text: Seq<char>) -> Option<Json>;

/// A JSON value as `serde_json` writes it, in compact form.
pub uninterp spec fn json_written(json: Json) -> Seq<char>;

/// The member of a JSON value under a key; `None` where the value is no
/// object or has no such member.
pub open spec fn member_of(json: Json, key: Seq<char>) -> Option<Json> {
    match json {
        Json::Object(members) if members.dom().contains(key) => Some(members[key]),
        _ => None,
    }
}

/// The text of a JSON value that is a string; `None` of any other value.
pub open spec fn text_of(json: Json) -> Option<Seq<char>> {
    match json {
        Json::Text(text) => Some(text),
        _ => None,
    }
}

/// The JSON value behind an optional reference to a parsed value.
pub open spec fn json_of_found(found: Option<&serde_json::Value>) -> Option<Json> {
    match found {
        Some(value) => Some(json_of(*value)),
        None => None,
    }
}

/// The characters of an optional text.
pub open spec fn chars_of(found: Option<&str>) -> Option<Seq<char>> {
    match found {
        Some(text) => Some(text@),
        None => None,
    }
}

/// Calls `serde_json::from_str` for a `serde_json::Value`. Trusted: the
/// value that comes back holds what `serde_json` reads from the text, and
/// none comes back where it rejects the text.
#[verifier::external_body]
pub(crate) fn parse_json(text: &str) -> (parsed: Option<serde_json::Value>)
    ensures
        match parsed {
            Some(value) => json_parsed(text@) == Some(json_of(value)),
            None => json_parsed(text@) is None,
        },
{
    serde_json::from_str::<serde_json::Value>(text).ok()
}

/// Calls `serde_json::Value::is_object`. Trusted: it tells whether the value
/// is an object.
#[verifier::external_body]
pub(crate) fn is_json_object(value: &serde_json::Value) -> (object: bool)
    ensures
        object == (json_of(*value) is Object),
{
    value.is_object()
}

/// Calls `serde_json::Value::get` with a key. Trusted: it finds the member
/// of an object under the key, and nothing in a value that is no object or
/// has no such member.
#[verifier::external_body]
pub(crate) fn get_json_member<'a>(value: &'a serde_json::Value, key: &str) -> (member: Option<&'a serde_json::Value>)
    ensures
        json_of_found(member) == member_of(json_of(*value), key@),
{
    value.get(key)
}

/// Calls `serde_json::Value::as_str`. Trusted: it gives the text of a value
/// that is a string, and nothing of any other value.
#[verifier::external_body]
pub(crate) fn get_json_text<'a>(value: &'a serde_json::Value) -> (found: Option<&'a str>)
    ensures
        chars_of(found) == text_of(json_of(*value)),
{
    value.as_str()
}

/// Calls `to_string` on a `serde_json::Value`, which writes the value as
/// compact JSON.
#[verifier::external_body]
pub(crate) fn write_json(value: &serde_json::Value) -> (written: String)
    ensures
        written@ == json_written(json_of(*value)),
{
    value.to_string()
}

/// The truth value of a JSON value that is `true` or `false`; `None` of any
/// other value.
pub open spec fn bool_of(json: Json) -> Option<bool> {
    match json {
        Json::Bool(b) => Some(b),
        _ => None,
    }
}

/// Calls `serde_json::Value::as_bool`. Trusted: it gives the truth value of
/// a value that is `true` or `false`, and nothing of any other value.
#[verifier::external_body]
pub(crate) fn get_json_bool(value: &serde_json::Value) -> (found: Option<bool>)
    ensures
        found == bool_of(json_of(*value)),
{
    value.as_bool()
}

} // verus!
