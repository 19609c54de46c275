//! Trusted interface to the outside JSON parser.
//!
//! `serde_json::Value` is opaque to the verifier; `JsonModel` is its ghost
//! model, and each accessor wrapper states over that model what the
//! corresponding `serde_json` call returns.  The schema logic built on top
//! of these wrappers is verified.

use vstd::prelude::*;

verus! {

#[verifier::external_type_specification]
#[verifier::external_body]
pub struct ExValue(serde_json::Value);

/// Ghost model of a JSON document.
pub enum JsonModel {
    Null,
    Bool(bool),
    /// A number, by what can be read from it: its value as `u64` when it is
    /// an integer in `u64` range, and as `i64` when in `i64` range.
    Num(Option<u64>, Option<i64>),
    Str(Seq<char>),
    Arr(Seq<JsonModel>),
    Obj(Map<Seq<char>, JsonModel>),
}

/// What a parsed JSON value holds.
pub uninterp spec fn json_model(v: serde_json::Value) -> JsonModel;

/// What parsing a byte string as a JSON document yields; parsing is a
/// function of the input alone, `None` meaning the input is not a valid
/// JSON document.
pub uninterp spec fn json_of(s: Seq<u8>) -> Option<JsonModel>;

/// Relies on `serde_json::from_slice::<Value>`: it fails exactly on input
/// that is not a single valid JSON document, and otherwise returns the
/// parsed value.
#[verifier::external_body]
pub fn json_parse(bytes: &[u8]) -> (r: Option<serde_json::Value>)
    ensures
        r is Some <==> json_of(bytes@) is Some,
        r matches Some(v) ==> json_model(v) == json_of(bytes@).unwrap(),
{
    serde_json::from_slice::<serde_json::Value>(bytes).ok()
}

/// Relies on `Value::get` with a string key: on an object it looks the key
/// up; on any other value it returns `None`.
#[verifier::external_body]
pub fn json_get<'a>(v: &'a serde_json::Value, key: &str) -> (r: Option<&'a serde_json::Value>)
    ensures
        match json_model(*v) {
            JsonModel::Obj(m) => {
                &&& r is Some <==> m.dom().contains(key@)
                &&& (r matches Some(f) ==> m.dom().contains(key@) && json_model(*f) == m[key@])
            },
            _ => r is None,
        },
{
    v.get(key)
}

/// Relies on `Value::as_u64`: the numeric value when the JSON value is an
/// integer representable as `u64`, `None` otherwise.
#[verifier::external_body]
pub fn json_as_u64(v: &serde_json::Value) -> (r: Option<u64>)
    ensures
        match json_model(*v) {
            JsonModel::Num(u, i) => r == u,
            _ => r is None,
        },
{
    v.as_u64()
}

/// Relies on `Value::as_i64`: the numeric value when the JSON value is an
/// integer representable as `i64`, `None` otherwise.
#[verifier::external_body]
pub fn json_as_i64(v: &serde_json::Value) -> (r: Option<i64>)
    ensures
        match json_model(*v) {
            JsonModel::Num(u, i) => r == i,
            _ => r is None,
        },
{
    v.as_i64()
}

/// Relies on `Value::as_str`: the characters of a JSON string, `None` on
/// any other value.
#[verifier::external_body]
pub fn json_as_str<'a>(v: &'a serde_json::Value) -> (r: Option<&'a str>)
    ensures
        match json_model(*v) {
            JsonModel::Str(s) => r matches Some(t) && t@ == s,
            _ => r is None,
        },
{
    v.as_str()
}

/// Relies on `Value::as_array`: the elements of a JSON array in order,
/// `None` on any other value.
#[verifier::external_body]
pub fn json_as_array<'a>(v: &'a serde_json::Value) -> (r: Option<&'a Vec<serde_json::Value>>)
    ensures
        match json_model(*v) {
            JsonModel::Arr(s) => {
                &&& r is Some
                &&& (r matches Some(a) ==> a@.len() == s.len() && (forall|i: int|
                    0 <= i < s.len() ==> json_model(#[trigger] a@[i]) == s[i]))
            },
            _ => r is None,
        },
{
    v.as_array()
}

} // verus!
