//! A plain tree of JSON values, as the rest of the library reads them.

use vstd::prelude::*;

verus! {

/// One JSON value. Numbers that are non-negative integers fitting in 64 bits
/// are kept; every other number is `OtherNumber`.
pub enum JsonValue {
    Null,
    Bool(bool),
    Uint(u64),
    OtherNumber,
    Str(String),
    Array(Vec<JsonValue>),
    Object(Vec<(String, JsonValue)>),
}

/// The value stored under `key` in an object's entries: the first entry with
/// that key, if any.
pub open spec fn field_of(fields: Seq<(String, JsonValue)>, key: Seq<char>) -> Option<JsonValue>
    decreases fields.len(),
{
    if fields.len() == 0 {
        None
    } else if fields[0].0@ == key {
        Some(fields[0].1)
    } else {
        field_of(fields.drop_first(), key)
    }
}

/// The value under `key`, when `v` is an object.
pub open spec fn member_of(v: JsonValue, key: Seq<char>) -> Option<JsonValue> {
    match v {
        JsonValue::Object(fields) => field_of(fields@, key),
        _ => None,
    }
}

/// The integer under `key`, when `v` is an object holding one there.
pub open spec fn uint_member(v: JsonValue, key: Seq<char>) -> Option<u64> {
    match member_of(v, key) {
        Some(JsonValue::Uint(n)) => Some(n),
        _ => None,
    }
}

/// The string under `key`, when `v` is an object holding one there.
pub open spec fn str_member(v: JsonValue, key: Seq<char>) -> Option<String> {
    match member_of(v, key) {
        Some(JsonValue::Str(s)) => Some(s),
        _ => None,
    }
}

/// What `serde_json::from_str` makes of a text, as a tree of this module.
pub uninterp spec fn json_of_text(text: Seq<char>) -> Option<JsonValue>;

proof fn lemma_field_of_skip(fields: Seq<(String, JsonValue)>, key: Seq<char>, i: int)
    requires
        0 <= i < fields.len(),
        fields[i].0@ != key,
    ensures
        field_of(fields.skip(i), key) == field_of(fields.skip(i + 1), key),
{
    assert(fields.skip(i).drop_first() =~= fields.skip(i + 1));
}

/// Finds the value under `key` among an object's entries.
pub fn find_field<'a>(fields: &'a Vec<(String, JsonValue)>, key: &String) -> (r: Option<&'a JsonValue>)
    ensures
        match r {
            Some(v) => field_of(fields@, key@) == Some(*v),
            None => field_of(fields@, key@) is None,
        },
{
    let mut i: usize = 0;
    assert(fields@.skip(0) =~= fields@);
    while i < fields.len()
        invariant
            i <= fields.len(),
            field_of(fields@, key@) == field_of(fields@.skip(i as int), key@),
        decreases fields.len() - i,
    {
        if fields[i].0 == *key {
            return Some(&fields[i].1);
        }
        proof {
            lemma_field_of_skip(fields@, key@, i as int);
        }
        i = i + 1;
    }
    None
}

/// The value under `key`, when `v` is an object.
pub fn member<'a>(v: &'a JsonValue, key: &String) -> (r: Option<&'a JsonValue>)
    ensures
        match r {
            Some(x) => member_of(*v, key@) == Some(*x),
            None => member_of(*v, key@) is None,
        },
{
    match v {
        JsonValue::Object(fields) => find_field(fields, key),
        _ => None,
    }
}

/// The integer under `key`, when `v` is an object holding one there.
pub fn uint_field(v: &JsonValue, key: &String) -> (r: Option<u64>)
    ensures
        r == uint_member(*v, key@),
{
    match member(v, key) {
        Some(JsonValue::Uint(n)) => Some(*n),
        _ => None,
    }
}

/// A copy of the string under `key`, when `v` is an object holding one there.
pub fn str_field(v: &JsonValue, key: &String) -> (r: Option<String>)
    ensures
        r == str_member(*v, key@),
{
    match member(v, key) {
        Some(JsonValue::Str(s)) => Some(s.clone()),
        _ => None,
    }
}

#[verifier::external_type_specification]
#[verifier::external_body]
pub struct ExJsonDocument(serde_json::Value);

/// Relies on `serde_json::from_str`: the text is read as one JSON document,
/// or refused.
#[verifier::external_body]
pub fn parse_json(text: &str) -> (r: Option<JsonValue>)
    ensures
        r == json_of_text(text@),
{
    serde_json::from_str::<serde_json::Value>(text).ok().map(tree_of)
}

/// Relies on the variants of `serde_json::Value`: each becomes the variant of
/// the same name here, integers through `serde_json::Number::as_u64`.
#[verifier::external_body]
fn tree_of(v: serde_json::Value) -> JsonValue {
    match v {
        serde_json::Value::Null => JsonValue::Null,
        serde_json::Value::Bool(b) => JsonValue::Bool(b),
        serde_json::Value::Number(n) => n.as_u64().map_or(JsonValue::OtherNumber, JsonValue::Uint),
        serde_json::Value::String(s) => JsonValue::Str(s),
        serde_json::Value::Array(a) => JsonValue::Array(a.into_iter().map(tree_of).collect()),
        serde_json::Value::Object(o) => JsonValue::Object(o.into_iter().map(|(k, x)| (k, tree_of(x))).collect()),
    }
}

} // verus!
