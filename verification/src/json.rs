//! JSON documents, decoded by `serde_json` and read through a tree model.
//!
//! The decoder and the accessors of `serde_json::Value` are believed, not
//! proved: each stands behind one small function whose contract says what
//! the accessor returns in terms of [`Json`]. Everything that walks a
//! document is proved against those contracts.

use serde_json::Value;
use vstd::prelude::*;

verus! {

/// A decoded document of `serde_json`. Opaque here: its content is spoken of
/// through [`json_tree`].
#[verifier::external_type_specification]
#[verifier::external_body]
pub struct ExValue(serde_json::Value);

/// The failure that `serde_json` reports for text that is not a JSON
/// document. Opaque here; it is only carried to the caller.
#[verifier::external_type_specification]
#[verifier::external_body]
pub struct ExJsonError(serde_json::Error);

/// A JSON document as a tree.
pub enum Json {
    Null,
    Bool(bool),
    /// A number. It holds the value where that is a whole number from 0 to
    /// `u64::MAX`, and nothing for a negative or fractional one.
    Number(Option<u64>),
    String(Seq<char>),
    Array(Seq<Json>),
    Object(Map<Seq<char>, Json>),
}

/// The tree that a decoded document holds.
pub uninterp spec fn json_tree(value: Value) -> Json;

/// The tree that `serde_json` decodes the given bytes to, or nothing where it
/// rejects them.
pub uninterp spec fn json_parse(bytes: Seq<u8>) -> Option<Json>;

/// The member of an object under `key`; nothing for a missing key or for a
/// tree that is no object.
pub open spec fn member_of(tree: Json, key: Seq<char>) -> Option<Json> {
    match tree {
        Json::Object(members) => if members.contains_key(key) {
            Some(members[key])
        } else {
            None
        },
        _ => None,
    }
}

/// The text of a string; nothing for any other tree.
pub open spec fn text_of(tree: Json) -> Option<Seq<char>> {
    match tree {
        Json::String(text) => Some(text),
        _ => None,
    }
}

/// The value of a whole number from 0 to `u64::MAX`; nothing for any other
/// tree.
pub open spec fn number_of(tree: Json) -> Option<u64> {
    match tree {
        Json::Number(value) => value,
        _ => None,
    }
}

/// The elements of an array; nothing for any other tree.
pub open spec fn items_of(tree: Json) -> Option<Seq<Json>> {
    match tree {
        Json::Array(items) => Some(items),
        _ => None,
    }
}

/// The trees of a list of decoded documents.
pub open spec fn trees_of(values: Seq<Value>) -> Seq<Json> {
    values.map_values(|value: Value| json_tree(value))
}

/// Calls `serde_json::from_slice` for a `Value`. Believed: the outcome is a
/// function of the bytes alone, which [`json_parse`] names: the tree of the
/// document, or nothing where the call fails.
#[verifier::external_body]
pub(crate) fn parse(bytes: &[u8]) -> (r: Result<Value, serde_json::Error>)
    ensures
        match r {
            Ok(value) => json_parse(bytes@) == Some(json_tree(value)),
            Err(_) => json_parse(bytes@) is None,
        },
{
    serde_json::from_slice(bytes)
}

/// Calls `Value::get` with a string key. Believed: it returns the member
/// under that key of an object, and nothing for a missing key or a value
/// that is no object.
#[verifier::external_body]
pub(crate) fn member<'a>(value: &'a Value, key: &str) -> (r: Option<&'a Value>)
    ensures
        match r {
            Some(found) => member_of(json_tree(*value), key@) == Some(json_tree(*found)),
            None => member_of(json_tree(*value), key@) is None,
        },
{
    value.get(key)
}

/// Calls `Value::as_str`. Believed: it returns the text of a string, and
/// nothing for any other value.
#[verifier::external_body]
pub(crate) fn text<'a>(value: &'a Value) -> (r: Option<&'a str>)
    ensures
        match r {
            Some(found) => text_of(json_tree(*value)) == Some(found@),
            None => text_of(json_tree(*value)) is None,
        },
{
    value.as_str()
}

/// Calls `Value::as_u64`. Believed: it returns the value of a number that is
/// whole and not negative, and nothing for any other value.
#[verifier::external_body]
pub(crate) fn number(value: &Value) -> (r: Option<u64>)
    ensures
        r == number_of(json_tree(*value)),
{
    value.as_u64()
}

/// Calls `Value::as_array`. Believed: it returns the elements of an array in
/// order, and nothing for any other value.
#[verifier::external_body]
pub(crate) fn items<'a>(value: &'a Value) -> (r: Option<&'a Vec<Value>>)
    ensures
        match r {
            Some(found) => items_of(json_tree(*value)) == Some(trees_of(found@)),
            None => items_of(json_tree(*value)) is None,
        },
{
    value.as_array()
}

/// Calls `serde::de::Error::custom` for `serde_json::Error`, which makes the
/// failure that reports a document of the wrong shape with the given words.
#[verifier::external_body]
pub(crate) fn shape_error(message: &str) -> serde_json::Error {
    serde::de::Error::custom(message)
}

/// Text of the string member under `key`.
pub open spec fn text_member(tree: Json, key: Seq<char>) -> Option<Seq<char>> {
    match member_of(tree, key) {
        Some(found) => text_of(found),
        None => None,
    }
}

/// Value of the number member under `key`.
pub open spec fn number_member(tree: Json, key: Seq<char>) -> Option<u64> {
    match member_of(tree, key) {
        Some(found) => number_of(found),
        None => None,
    }
}

/// Copies the string member under `key`.
pub fn get_text(value: &Value, key: &str) -> (r: Option<String>)
    ensures
        r is Some <==> text_member(json_tree(*value), key@) is Some,
        r matches Some(found) ==> Some(found@) == text_member(json_tree(*value), key@),
{
    match member(value, key) {
        Some(found) => match text(found) {
            Some(s) => Some(s.to_owned()),
            None => None,
        },
        None => None,
    }
}

/// Reads the number member under `key`.
pub fn get_number(value: &Value, key: &str) -> (r: Option<u64>)
    ensures
        r == number_member(json_tree(*value), key@),
{
    match member(value, key) {
        Some(found) => number(found),
        None => None,
    }
}

} // verus!
