//! JSON documents, read through `serde_json`. A document is opaque to the
//! verifier; what it holds is named by [`json_model`], and each accessor is
//! stated over that model.

use vstd::prelude::*;
use vstd::string::*;

verus! {

/// `serde_json::Value`, a parsed JSON document.
#[verifier::external_type_specification]
#[verifier::external_body]
pub struct ExJsonValue(serde_json::Value);

/// `serde_json::Error`, why a text is no JSON document.
#[verifier::external_type_specification]
#[verifier::external_body]
pub struct ExJsonError(serde_json::Error);

/// What a JSON document holds, as far as this library reads it. `null`,
/// booleans, and numbers other than an unsigned integer of 64 bits are
/// `Other`.
pub enum Json {
    Text(Seq<char>),
    Unsigned(u64),
    Array(Seq<Json>),
    Object(Map<Seq<char>, Json>),
    Other,
}

/// What a document holds.
pub uninterp spec fn json_model(v: serde_json::Value) -> Json;

/// What a text holds as a JSON document, or `None` where it is none.
pub uninterp spec fn parsed_json(text: Seq<char>) -> Option<Json>;

/// The member of an object under a key.
pub open spec fn member(j: Json, key: Seq<char>) -> Option<Json> {
    match j {
        Json::Object(m) => if m.contains_key(key) {
            Some(m[key])
        } else {
            None
        },
        _ => None,
    }
}

/// The element of an array at a position.
pub open spec fn element(j: Json, i: int) -> Option<Json> {
    match j {
        Json::Array(a) => if 0 <= i < a.len() {
            Some(a[i])
        } else {
            None
        },
        _ => None,
    }
}

/// The text of a string.
pub open spec fn text_of(j: Json) -> Option<Seq<char>> {
    match j {
        Json::Text(s) => Some(s),
        _ => None,
    }
}

/// The value of an unsigned number.
pub open spec fn unsigned_of(j: Json) -> Option<u64> {
    match j {
        Json::Unsigned(n) => Some(n),
        _ => None,
    }
}

/// The elements of an array.
pub open spec fn elements_of(j: Json) -> Option<Seq<Json>> {
    match j {
        Json::Array(a) => Some(a),
        _ => None,
    }
}

/// The text of the string under a key, if the document is an object and
/// holds a string there.
pub open spec fn field_text(j: Json, key: Seq<char>) -> Option<Seq<char>> {
    match member(j, key) {
        Some(m) => text_of(m),
        None => None,
    }
}

/// The unsigned number under a key.
pub open spec fn field_unsigned(j: Json, key: Seq<char>) -> Option<u64> {
    match member(j, key) {
        Some(m) => unsigned_of(m),
        None => None,
    }
}

/// The models of a list of documents.
pub open spec fn json_models(v: Seq<serde_json::Value>) -> Seq<Json> {
    Seq::new(v.len(), |i: int| json_model(v[i]))
}

/// `serde_json::from_str` at `Value`: the document that a text holds, or the
/// parser's error. The same text always gives the same outcome.
#[verifier::external_body]
pub(crate) fn parse_json(text: &str) -> (r: Result<serde_json::Value, serde_json::Error>)
    ensures
        match r {
            Ok(v) => parsed_json(text@) == Some(json_model(v)),
            Err(_) => parsed_json(text@) is None,
        },
{
    serde_json::from_str(text)
}

/// `Value::get` with a string: the member under `key` where the document is
/// an object that has one, else `None`.
#[verifier::external_body]
pub(crate) fn json_get<'a>(v: &'a serde_json::Value, key: &str) -> (r: Option<&'a serde_json::Value>)
    ensures
        match r {
            Some(w) => member(json_model(*v), key@) == Some(json_model(*w)),
            None => member(json_model(*v), key@) is None,
        },
{
    v.get(key)
}

/// `Value::get` with a number: the element at `i` where the document is an
/// array that long, else `None`.
#[verifier::external_body]
pub(crate) fn json_at<'a>(v: &'a serde_json::Value, i: usize) -> (r: Option<&'a serde_json::Value>)
    ensures
        match r {
            Some(w) => element(json_model(*v), i as int) == Some(json_model(*w)),
            None => element(json_model(*v), i as int) is None,
        },
{
    v.get(i)
}

/// `Value::as_str`: the text where the document is a string, else `None`.
#[verifier::external_body]
pub(crate) fn json_str<'a>(v: &'a serde_json::Value) -> (r: Option<&'a str>)
    ensures
        match r {
            Some(s) => text_of(json_model(*v)) == Some(s@),
            None => text_of(json_model(*v)) is None,
        },
{
    v.as_str()
}

/// `Value::as_u64`: the number where the document is an integer from 0 to
/// `u64::MAX`, else `None`.
#[verifier::external_body]
pub(crate) fn json_u64(v: &serde_json::Value) -> (r: Option<u64>)
    ensures
        r == unsigned_of(json_model(*v)),
{
    v.as_u64()
}

/// `Value::as_array`: the elements where the document is an array, else
/// `None`.
#[verifier::external_body]
pub(crate) fn json_array<'a>(v: &'a serde_json::Value) -> (r: Option<&'a Vec<serde_json::Value>>)
    ensures
        match r {
            Some(items) => elements_of(json_model(*v)) == Some(json_models(items@)),
            None => elements_of(json_model(*v)) is None,
        },
{
    v.as_array()
}

/// The string under a key, copied.
pub fn string_field(v: &serde_json::Value, key: &str) -> (r: Option<String>)
    ensures
        crate::text::opt_text(r) == field_text(json_model(*v), key@),
{
    match json_get(v, key) {
        Some(m) => match json_str(m) {
            Some(s) => Some(String::from_str(s)),
            None => None,
        },
        None => None,
    }
}

/// The unsigned number under a key.
pub fn unsigned_field(v: &serde_json::Value, key: &str) -> (r: Option<u64>)
    ensures
        r == field_unsigned(json_model(*v), key@),
{
    match json_get(v, key) {
        Some(m) => json_u64(m),
        None => None,
    }
}

} // verus!
