//! JSON payloads.
//!
//! The protocol carries free-form JSON in a handful of places — a state
//! snapshot, a custom event's value, a tool's parameter schema. The library
//! never looks inside those values; it carries them from producer to consumer.
//! They are held as `serde_json::Value`, declared here as an opaque type.

use vstd::prelude::*;

verus! {

/// `serde_json::Value`, carried through the event model without being read.
#[verifier::external_type_specification]
#[verifier::external_body]
pub struct ExJsonValue(serde_json::Value);

/// `<serde_json::Value as Clone>::clone`: the derived deep copy, which gives a
/// value equal to the original.
pub assume_specification[ <serde_json::Value as Clone>::clone ](
    value: &serde_json::Value,
) -> (copy: serde_json::Value)
    ensures
        copy == *value,
;

/// The value `serde_json` parses `text` into: `None` when `text` is not one
/// JSON document. A function of `text` alone.
pub uninterp spec fn json_parsed(text: Seq<char>) -> Option<serde_json::Value>;

/// The elements of a JSON array, `None` for any other value.
pub uninterp spec fn json_items(value: serde_json::Value) -> Option<Seq<serde_json::Value>>;

/// The member `key` of a JSON object, `None` when the value is not an object
/// or has no such member.
pub uninterp spec fn json_member(value: serde_json::Value, key: Seq<char>) -> Option<serde_json::Value>;

/// The text of a JSON string, `None` for any other value.
pub uninterp spec fn json_text(value: serde_json::Value) -> Option<Seq<char>>;

/// The members of a JSON object as `serde_json::Value::as_object` holds
/// them, in its order; `None` for any other value.
pub uninterp spec fn json_members(value: serde_json::Value) -> Option<Seq<(Seq<char>, serde_json::Value)>>;

/// `serde_json::from_str::<serde_json::Value>`, with the error dropped: the
/// parse of `text`, or `None` when it is not a JSON document.
#[verifier::external_body]
pub(crate) fn parse_json(text: &str) -> (parsed: Option<serde_json::Value>)
    ensures
        parsed == json_parsed(text@),
{
    serde_json::from_str::<serde_json::Value>(text).ok()
}

/// `serde_json::Value::as_array`, cloned: the elements of an array.
#[verifier::external_body]
pub(crate) fn items_of(value: &serde_json::Value) -> (items: Option<Vec<serde_json::Value>>)
    ensures
        match items {
            Some(v) => json_items(*value) == Some(v@),
            None => json_items(*value) is None,
        },
{
    value.as_array().cloned()
}

/// `serde_json::Value::get` with a key, cloned: the member `key` of an object.
#[verifier::external_body]
pub(crate) fn member_of(value: &serde_json::Value, key: &str) -> (member: Option<serde_json::Value>)
    ensures
        member == json_member(*value, key@),
{
    value.get(key).cloned()
}

/// `serde_json::Value::as_str`, owned: the text of a string.
#[verifier::external_body]
pub(crate) fn text_of(value: &serde_json::Value) -> (text: Option<String>)
    ensures
        match text {
            Some(t) => json_text(*value) == Some(t@),
            None => json_text(*value) is None,
        },
{
    value.as_str().map(String::from)
}

/// `serde_json::Value::is_object`: whether the value is a JSON object.
#[verifier::external_body]
pub(crate) fn is_object(value: &serde_json::Value) -> (object: bool)
    ensures
        object == json_members(*value) is Some,
{
    value.is_object()
}

/// `serde_json::Value::Object` of an empty `serde_json::Map`: the object
/// with no members.
#[verifier::external_body]
pub(crate) fn empty_object() -> (value: serde_json::Value)
    ensures
        json_members(value) == Some(Seq::<(Seq<char>, serde_json::Value)>::empty()),
{
    serde_json::Value::Object(serde_json::Map::new())
}

/// `serde_json::Value::String`: the JSON string holding `text`.
#[verifier::external_body]
pub(crate) fn string_value(text: &str) -> (value: serde_json::Value)
    ensures
        json_text(value) == Some(text@),
{
    serde_json::Value::String(text.to_owned())
}

/// The JSON `null`: the value the text `null` parses as.
pub open spec fn json_null() -> serde_json::Value {
    json_parsed("null"@)->Some_0
}

/// `serde_json::Value::Null`, the JSON `null`, which is what `serde_json`
/// parses the text `null` as.
#[verifier::external_body]
pub(crate) fn null_value() -> (value: serde_json::Value)
    ensures
        json_parsed("null"@) == Some(value),
{
    serde_json::Value::Null
}

} // verus!
