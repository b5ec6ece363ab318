//! JSON values as `serde_json` reads, shows and decodes them.

use vstd::prelude::*;

use vstd::utf8::encode_utf8;

use serde_json::Value;

use crate::error::{Error, ErrorView};
use crate::value::{Json, Tree};

verus! {

/// `serde_json::Value`: a JSON value.
#[verifier::external_type_specification]
#[verifier::external_body]
pub struct ExValue(serde_json::Value);

/// What a value holds, with the entries of an object in the order of its map.
pub uninterp spec fn tree_of(value: serde_json::Value) -> Tree;

/// What `serde_json` reads from bytes, or the message of its error.
pub uninterp spec fn parsed_value(bytes: Seq<u8>) -> Result<Tree, Seq<char>>;

/// What a value of `serde_json` keeps of a tree: one entry for each key, the last, in the order of
/// its map, and numbers as it holds them.
pub uninterp spec fn stored(tree: Tree) -> Tree;

/// The compact text of what a value holds.
pub uninterp spec fn compact(tree: Tree) -> Seq<char>;

/// The message that a value is no string.
pub uninterp spec fn text_message(tree: Tree) -> Seq<char>;

/// The message that a value is no boolean.
pub uninterp spec fn flag_message(tree: Tree) -> Seq<char>;

/// The message that a value is no array.
pub uninterp spec fn list_message(tree: Tree) -> Seq<char>;

/// The message that a value is no object.
pub uninterp spec fn map_message(tree: Tree) -> Seq<char>;

/// `serde_json::from_slice` into a `Value`: what it reads, or the message of its error, is a
/// function of the bytes alone.
#[verifier::external_body]
fn value_from_slice(bytes: &[u8]) -> (r: Result<Value, String>)
    ensures
        match r {
            Ok(value) => parsed_value(bytes@) == Ok::<Tree, Seq<char>>(tree_of(value)),
            Err(message) => parsed_value(bytes@) == Err::<Tree, Seq<char>>(message@),
        },
{
    serde_json::from_slice::<Value>(bytes).map_err(|error| error.to_string())
}

/// The variants of a `serde_json::Value`, each moved to that of a [`Json`] value: a number that
/// `as_u64` or `as_i64` gives is an integer, any other is its `to_string`.
#[verifier::external_body]
fn json_of_value(value: Value) -> (json: Json)
    ensures
        json@ == tree_of(value),
{
    match value {
        Value::Null => Json::Null,
        Value::Bool(b) => Json::Bool(b),
        Value::Number(n) => match (n.as_u64(), n.as_i64()) {
            (Some(unsigned), _) => Json::Unsigned(unsigned),
            (None, Some(signed)) => Json::Negative(signed),
            (None, None) => Json::Float(n.to_string()),
        },
        Value::String(text) => Json::Str(text),
        Value::Array(items) => Json::Array(items.into_iter().map(json_of_value).collect()),
        Value::Object(entries) => Json::Object(
            entries.into_iter().map(|(key, item)| (key, json_of_value(item))).collect(),
        ),
    }
}

/// `serde_json::Value` from a [`Json`] value, variant by variant. A number that was kept as text
/// goes through `Number::from_f64`, and is null where the text is no finite number; a signed
/// number that is not negative is held as an unsigned one. An object's map orders its keys and
/// holds each once, with the last of the values that are given for it, and arrays and objects hold
/// values made in the same way: that much is named, not spelled out.
#[verifier::external_body]
fn value_of_json(json: &Json) -> (value: Value)
    ensures
        tree_of(value) == stored(json@),
        match json@ {
            Tree::Null | Tree::Bool(_) | Tree::Unsigned(_) | Tree::Str(_) => tree_of(value)
                == json@,
            Tree::Negative(n) => tree_of(value) == if n < 0 {
                json@
            } else {
                Tree::Unsigned(n as u64)
            },
            Tree::Float(_) => tree_of(value) is Null || tree_of(value) is Float,
            Tree::Array(_) => tree_of(value) is Array,
            Tree::Object(_) => tree_of(value) is Object,
        },
{
    match json {
        Json::Null => Value::Null,
        Json::Bool(b) => Value::Bool(*b),
        Json::Unsigned(n) => (*n).into(),
        Json::Negative(n) => (*n).into(),
        Json::Float(text) => text.parse().ok().and_then(serde_json::Number::from_f64).into(),
        Json::Str(text) => text.clone().into(),
        Json::Array(items) => items.iter().map(value_of_json).collect(),
        Json::Object(entries) => entries.iter().map(
            |(key, item)| (key.clone(), value_of_json(item)),
        ).collect(),
    }
}

/// `<serde_json::Value as std::fmt::Display>::fmt`: the compact text, a function of what the value
/// holds.
#[verifier::external_body]
fn value_text(value: &Value) -> (text: String)
    ensures
        text@ == compact(tree_of(*value)),
{
    value.to_string()
}

/// `serde_json::from_value` into a `String`: the contents of a string; for any other value an
/// error, whose message is a function of the value.
#[verifier::external_body]
fn text_from_value(value: Value) -> (r: Result<String, String>)
    ensures
        match tree_of(value) {
            Tree::Str(contents) => r matches Ok(text) && text@ == contents,
            other => r matches Err(message) && message@ == text_message(other),
        },
{
    serde_json::from_value::<String>(value).map_err(|error| error.to_string())
}

/// `serde_json::from_value` into a `bool`: that of a boolean; for any other value an error, whose
/// message is a function of the value.
#[verifier::external_body]
fn flag_from_value(value: Value) -> (r: Result<bool, String>)
    ensures
        match tree_of(value) {
            Tree::Bool(b) => r matches Ok(set) && set == b,
            other => r matches Err(message) && message@ == flag_message(other),
        },
{
    serde_json::from_value::<bool>(value).map_err(|error| error.to_string())
}

/// `serde_json::from_value` into a `Vec<Value>`: it takes every array and nothing else; the message
/// of its error is a function of the value.
#[verifier::external_body]
fn list_from_value(value: Value) -> (r: Result<(), String>)
    ensures
        match tree_of(value) {
            Tree::Array(_) => r is Ok,
            other => r matches Err(message) && message@ == list_message(other),
        },
{
    serde_json::from_value::<Vec<Value>>(value).map(|_| ()).map_err(|error| error.to_string())
}

/// `serde_json::from_value` into a `Map`: it takes every object and nothing else; the message of
/// its error is a function of the value.
#[verifier::external_body]
fn map_from_value(value: Value) -> (r: Result<(), String>)
    ensures
        match tree_of(value) {
            Tree::Object(_) => r is Ok,
            other => r matches Err(message) && message@ == map_message(other),
        },
{
    serde_json::from_value::<serde_json::Map<String, Value>>(value).map(|_| ()).map_err(
        |error| error.to_string(),
    )
}

/// The message that a field is missing.
pub open spec fn missing_message(field: Seq<char>) -> Seq<char> {
    "missing field `"@ + field + "`"@
}

/// `serde::de::Error::missing_field` of `serde_json`'s error: its message names the field.
#[verifier::external_body]
pub(crate) fn missing_field(field: &'static str) -> (message: String)
    ensures
        message@ == missing_message(field@),
{
    <serde_json::Error as serde::de::Error>::missing_field(field).to_string()
}

/// The value that bytes hold.
pub fn parse_value(bytes: &[u8]) -> (r: Result<Json, Error>)
    ensures
        match parsed_value(bytes@) {
            Ok(tree) => r matches Ok(json) && json@ == tree,
            Err(message) => r matches Err(e) && e@ == ErrorView::Json(message),
        },
{
    match value_from_slice(bytes) {
        Ok(value) => Ok(json_of_value(value)),
        Err(message) => Err(Error::Json(message)),
    }
}

/// The value that a text holds, and its compact text.
pub fn parse_compact(text: &str) -> (r: Result<(Json, String), Error>)
    ensures
        match parsed_value(encode_utf8(text@)) {
            Ok(tree) => r matches Ok(parsed) && parsed.0@ == tree && parsed.1@ == compact(tree),
            Err(message) => r matches Err(e) && e@ == ErrorView::Json(message),
        },
{
    match value_from_slice(text.as_bytes()) {
        Ok(value) => {
            let text = value_text(&value);
            Ok((json_of_value(value), text))
        },
        Err(message) => Err(Error::Json(message)),
    }
}

/// The compact text of a value.
pub open spec fn rendered(tree: Tree) -> Seq<char> {
    compact(stored(tree))
}

/// The value as `serde_json` holds it.
pub fn to_value(json: &Json) -> (value: Value)
    ensures
        tree_of(value) == stored(json@),
{
    value_of_json(json)
}

/// The compact text of a value.
pub fn render(json: &Json) -> (text: String)
    ensures
        text@ == rendered(json@),
{
    value_text(&to_value(json))
}

/// The contents of a string, or the error of another value.
pub open spec fn text_of(tree: Tree) -> Result<Seq<char>, ErrorView> {
    match tree {
        Tree::Str(text) => Ok(text),
        other => Err(ErrorView::Json(text_message(stored(other)))),
    }
}

/// The contents of a string.
pub fn decode_text(json: &Json) -> (r: Result<String, Error>)
    ensures
        match text_of(json@) {
            Ok(text) => r matches Ok(t) && t@ == text,
            Err(error) => r matches Err(e) && e@ == error,
        },
{
    match text_from_value(value_of_json(json)) {
        Ok(text) => Ok(text),
        Err(message) => Err(Error::Json(message)),
    }
}

/// The value of a boolean, or the error of another value.
pub open spec fn flag_of(tree: Tree) -> Result<bool, ErrorView> {
    match tree {
        Tree::Bool(b) => Ok(b),
        other => Err(ErrorView::Json(flag_message(stored(other)))),
    }
}

/// The value of a boolean.
pub fn decode_flag(json: &Json) -> (r: Result<bool, Error>)
    ensures
        match flag_of(json@) {
            Ok(set) => r == Ok::<bool, Error>(set),
            Err(error) => r matches Err(e) && e@ == error,
        },
{
    match flag_from_value(value_of_json(json)) {
        Ok(set) => Ok(set),
        Err(message) => Err(Error::Json(message)),
    }
}

/// The error of a value that is no array.
pub open spec fn not_a_list(tree: Tree) -> ErrorView {
    ErrorView::Json(list_message(stored(tree)))
}

/// Check that a value is an array.
pub fn check_list(json: &Json) -> (r: Result<(), Error>)
    ensures
        match r {
            Ok(()) => json@ is Array,
            Err(e) => json@ !is Array && e@ == not_a_list(json@),
        },
{
    match list_from_value(value_of_json(json)) {
        Ok(()) => Ok(()),
        Err(message) => Err(Error::Json(message)),
    }
}

/// The error of a value that is no object.
pub open spec fn not_a_map(tree: Tree) -> ErrorView {
    ErrorView::Json(map_message(stored(tree)))
}

/// Check that a value is an object.
pub fn check_map(json: &Json) -> (r: Result<(), Error>)
    ensures
        match r {
            Ok(()) => json@ is Object,
            Err(e) => json@ !is Object && e@ == not_a_map(json@),
        },
{
    match map_from_value(value_of_json(json)) {
        Ok(()) => Ok(()),
        Err(message) => Err(Error::Json(message)),
    }
}

} // verus!
