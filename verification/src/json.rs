//! JSON documents, as `serde_json` parses them.
//!
//! The parsing is `serde_json`'s and is taken on trust: [`document`] names
//! what it makes of a text, [`content`] what a parsed value holds, and the
//! functions of this module say of each call into `serde_json` how its
//! result shows in that content.

use vstd::prelude::*;

verus! {

/// `serde_json::Value`, a parsed JSON value. What is inside is reached
/// only through the functions of this module.
#[verifier::external_type_specification]
#[verifier::external_body]
pub struct ExValue(serde_json::Value);

/// What a JSON value holds: the members of an object by their names, the
/// elements of an array in their order. Numbers are not told apart:
/// nothing here reads one.
pub enum JsonValue {
    Null,
    Bool(bool),
    Number,
    Text(Seq<char>),
    Array(Seq<JsonValue>),
    Object(Map<Seq<char>, JsonValue>),
}

/// What a parsed value holds.
pub uninterp spec fn content(value: serde_json::Value) -> JsonValue;

/// What `serde_json::from_slice` makes of a text: what the value holds
/// that it parses, or the message of the error with which it refuses.
pub uninterp spec fn document(text: Seq<u8>) -> Result<JsonValue, Seq<char>>;

/// The member of an object under a name; nothing where the value is no
/// object or has no such member.
pub open spec fn member_of(value: JsonValue, name: Seq<char>) -> Option<JsonValue> {
    match value {
        JsonValue::Object(members) => if members.contains_key(name) {
            Some(members[name])
        } else {
            None
        },
        _ => None,
    }
}

/// What each of some parsed values holds.
pub open spec fn contents(values: Seq<serde_json::Value>) -> Seq<JsonValue> {
    Seq::new(values.len(), |i: int| content(values[i]))
}

/// Calls `serde_json::from_slice` for a `serde_json::Value` and, where
/// that fails, takes the message of the `serde_json::Error` as its
/// `Display` writes it. The contract does no more than give the outcome
/// its name, [`document`]: a text is parsed the same way every time.
#[verifier::external_body]
pub(crate) fn parse(text: &[u8]) -> (out: Result<serde_json::Value, String>)
    ensures
        out matches Ok(value) ==> (document(text@) matches Ok(held) && held == content(value)),
        out matches Err(message) ==> (document(text@) matches Err(said) && said == message@),
{
    match serde_json::from_slice::<serde_json::Value>(text) {
        Ok(value) => Ok(value),
        Err(error) => Err(error.to_string()),
    }
}

/// Calls `serde_json::Value::is_object`: true for a JSON object, false
/// for every other value.
#[verifier::external_body]
pub(crate) fn is_object(value: &serde_json::Value) -> (out: bool)
    ensures
        out == (content(*value) is Object),
{
    value.is_object()
}

/// Calls `serde_json::Value::as_array`: for a JSON array its elements, in
/// their order, and nothing for any other value.
#[verifier::external_body]
pub(crate) fn elements(value: &serde_json::Value) -> (out: Option<&Vec<serde_json::Value>>)
    ensures
        out matches Some(items) ==> content(*value) == JsonValue::Array(contents(items@)),
        out is None ==> !(content(*value) is Array),
{
    value.as_array()
}

/// Calls `serde_json::Value::as_str`: for a JSON string its text, and
/// nothing for any other value.
#[verifier::external_body]
pub(crate) fn text(value: &serde_json::Value) -> (out: Option<&str>)
    ensures
        out matches Some(s) ==> content(*value) == JsonValue::Text(s@),
        out is None ==> !(content(*value) is Text),
{
    value.as_str()
}

/// Calls `serde_json::Value::get` with a name: for a JSON object that has
/// a member of that name, that member; nothing for an object without one
/// and for every other value.
#[verifier::external_body]
pub(crate) fn member<'a>(value: &'a serde_json::Value, name: &str) -> (out: Option<
    &'a serde_json::Value,
>)
    ensures
        out matches Some(found) ==> member_of(content(*value), name@) == Some(content(*found)),
        out is None ==> member_of(content(*value), name@) is None,
{
    value.get(name)
}

} // verus!
