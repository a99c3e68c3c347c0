//! The JSON layer: `serde_json` values and objects, seen through a
//! mathematical model.
//!
//! A `serde_json::Value` is opaque to the verifier. Its contents are named by
//! `json_value_view`, and every operation the library performs on a value or
//! on an object goes through one of the small trusted functions below, whose
//! contract says what the operation does to that model.

use vstd::prelude::*;
use std::str::FromStr;

verus! {

/// A JSON number as `serde_json` stores it: an integer, or a
/// floating-point number (held here as the bits of its `f64`).
///
/// `serde_json` holds an integer as `PosInt(u64)` when it is not negative
/// and as `NegInt(i64)` when it is (its source: "Always less than zero"),
/// so one integer has one form, and the model keeps only the integer, which
/// lies between `i64::MIN` and `u64::MAX`.
pub enum NumberView {
    Int(int),
    Float(u64),
}

/// The mathematical model of a JSON value.
pub enum JsonView {
    Null,
    Bool(bool),
    Number(NumberView),
    Str(Seq<char>),
    Array(Seq<JsonView>),
    Object(Map<Seq<char>, JsonView>),
}

impl JsonView {
    /// The string this value holds, if it is a string.
    pub open spec fn as_str(self) -> Option<Seq<char>> {
        match self {
            JsonView::Str(s) => Some(s),
            _ => None,
        }
    }

    /// The boolean this value holds, if it is a boolean.
    pub open spec fn as_bool(self) -> Option<bool> {
        match self {
            JsonView::Bool(b) => Some(b),
            _ => None,
        }
    }

    /// The value as an `i64`, if it is an integer that fits one.
    pub open spec fn as_i64(self) -> Option<i64> {
        match self {
            JsonView::Number(NumberView::Int(i)) => if i64::MIN <= i <= i64::MAX {
                Some(i as i64)
            } else {
                None
            },
            _ => None,
        }
    }

    /// The JSON number that `serde_json` builds from an `i64`.
    pub open spec fn from_i64(i: i64) -> JsonView {
        JsonView::Number(NumberView::Int(i as int))
    }
}

#[verifier::external_type_specification]
#[verifier::external_body]
pub struct ExJsonValue(serde_json::Value);

#[verifier::external_type_specification]
#[verifier::external_body]
#[verifier::reject_recursive_types(K)]
#[verifier::reject_recursive_types(V)]
pub struct ExJsonMap<K, V>(serde_json::Map<K, V>);

/// A JSON object as `serde_json` holds it.
pub type JsonObject = serde_json::Map<String, serde_json::Value>;

#[verifier::external_type_specification]
#[verifier::external_body]
pub struct ExJsonError(serde_json::Error);

/// What a `serde_json::Value` holds.
pub uninterp spec fn json_value_view(v: serde_json::Value) -> JsonView;

/// What a `serde_json::Map<String, Value>` holds: its keys, each with the
/// model of its value.
pub uninterp spec fn json_map_view(m: JsonObject) -> Map<
    Seq<char>,
    JsonView,
>;

/// What `serde_json` parses a JSON text into, or `None` where the text is
/// not JSON.
pub uninterp spec fn json_text_value(text: Seq<char>) -> Option<JsonView>;

/// `Value::Null`: the JSON null.
#[verifier::external_body]
pub(crate) fn json_null() -> (r: serde_json::Value)
    ensures
        json_value_view(r) == JsonView::Null,
{
    serde_json::Value::Null
}

/// `Value::from(bool)`: a JSON boolean.
#[verifier::external_body]
pub(crate) fn json_from_bool(b: bool) -> (r: serde_json::Value)
    ensures
        json_value_view(r) == JsonView::Bool(b),
{
    serde_json::Value::from(b)
}

/// `Value::from(i64)`: a JSON number holding the integer (`serde_json`
/// stores a negative one as `NegInt`, any other as `PosInt`).
#[verifier::external_body]
pub(crate) fn json_from_i64(i: i64) -> (r: serde_json::Value)
    ensures
        json_value_view(r) == JsonView::from_i64(i),
{
    serde_json::Value::from(i)
}

/// `Value::from(String)`: a JSON string holding the same characters.
#[verifier::external_body]
pub(crate) fn json_from_string(s: String) -> (r: serde_json::Value)
    ensures
        json_value_view(r) == JsonView::Str(s@),
{
    serde_json::Value::from(s)
}

/// `Value::from(Map)`: a JSON object with the entries of the map.
#[verifier::external_body]
pub(crate) fn json_from_map(m: JsonObject) -> (r: serde_json::Value)
    ensures
        json_value_view(r) == JsonView::Object(json_map_view(m)),
{
    serde_json::Value::from(m)
}

/// `Value::as_str`: the characters of a JSON string, `None` for any other
/// value.
#[verifier::external_body]
pub(crate) fn json_as_str(v: &serde_json::Value) -> (r: Option<&str>)
    ensures
        r is Some <==> json_value_view(*v) is Str,
        r matches Some(s) ==> json_value_view(*v) == JsonView::Str(s@),
{
    v.as_str()
}

/// `Value::as_bool`: the boolean of a JSON boolean, `None` for any other
/// value.
#[verifier::external_body]
pub(crate) fn json_as_bool(v: &serde_json::Value) -> (r: Option<bool>)
    ensures
        r == json_value_view(*v).as_bool(),
{
    v.as_bool()
}

/// `Value::as_i64`: a JSON number as an `i64` where it is an integer that
/// fits one (a `PosInt` up to `i64::MAX`, or any `NegInt`), `None`
/// otherwise.
#[verifier::external_body]
pub(crate) fn json_as_i64(v: &serde_json::Value) -> (r: Option<i64>)
    ensures
        r == json_value_view(*v).as_i64(),
{
    v.as_i64()
}

/// The object inside a `Value::Object`, `None` for any other value.
#[verifier::external_body]
pub(crate) fn json_into_object(v: serde_json::Value) -> (r: Option<JsonObject>)
    ensures
        r is Some <==> json_value_view(v) is Object,
        r matches Some(m) ==> json_value_view(v) == JsonView::Object(json_map_view(m)),
{
    match v {
        serde_json::Value::Object(m) => Some(m),
        _ => None,
    }
}

/// `Map::new`: an empty JSON object.
#[verifier::external_body]
pub(crate) fn json_map_new() -> (r: JsonObject)
    ensures
        json_map_view(r).dom() == Set::<Seq<char>>::empty(),
{
    serde_json::Map::new()
}

/// `Map::insert`: the key now maps to the value; the value it mapped to
/// before, if any, is handed back.
#[verifier::external_body]
pub(crate) fn json_map_insert(
    m: &mut JsonObject,
    k: String,
    v: serde_json::Value,
) -> (r: Option<serde_json::Value>)
    ensures
        json_map_view(*final(m)) == json_map_view(*old(m)).insert(k@, json_value_view(v)),
        r is Some <==> json_map_view(*old(m)).contains_key(k@),
        r matches Some(o) ==> json_value_view(o) == json_map_view(*old(m))[k@],
{
    m.insert(k, v)
}

/// `Map::remove`: the key leaves the object; its value, if it had one, is
/// handed back.
#[verifier::external_body]
pub(crate) fn json_map_remove(m: &mut JsonObject, k: &str) -> (r: Option<
    serde_json::Value,
>)
    ensures
        json_map_view(*final(m)) == json_map_view(*old(m)).remove(k@),
        r is Some <==> json_map_view(*old(m)).contains_key(k@),
        r matches Some(o) ==> json_value_view(o) == json_map_view(*old(m))[k@],
{
    m.remove(k)
}

/// `Map::get`: the value of a key, if the object has it.
#[verifier::external_body]
pub(crate) fn json_map_get<'a>(m: &'a JsonObject, k: &str) -> (r: Option<
    &'a serde_json::Value,
>)
    ensures
        r is Some <==> json_map_view(*m).contains_key(k@),
        r matches Some(o) ==> json_value_view(*o) == json_map_view(*m)[k@],
{
    m.get(k)
}

/// `Value::from_str`: the JSON value that a text holds; the error where the
/// text is not JSON.
#[verifier::external_body]
pub(crate) fn json_parse(text: &str) -> (r: Result<serde_json::Value, serde_json::Error>)
    ensures
        r is Ok <==> json_text_value(text@) is Some,
        r matches Ok(v) ==> json_text_value(text@) == Some(json_value_view(v)),
{
    serde_json::Value::from_str(text)
}

/// `Map::into_iter`, collected: the entries of an object, each key once,
/// each with its value. The object keeps them ordered by key and hands them
/// out in that order; the contract leaves the order unsaid, since nothing
/// here depends on it.
#[verifier::external_body]
pub(crate) fn json_map_into_entries(m: JsonObject) -> (r: Vec<(String, serde_json::Value)>)
    ensures
        forall|i: int, j: int| 0 <= i < j < r.len() ==> r[i].0@ != r[j].0@,
        forall|i: int|
            0 <= i < r.len() ==> #[trigger] json_map_view(m).contains_key(r[i].0@)
                && json_map_view(m)[r[i].0@] == json_value_view(r[i].1),
        forall|k: Seq<char>|
            json_map_view(m).contains_key(k) ==> exists|i: int| 0 <= i < r.len() && r[i].0@ == k,
{
    m.into_iter().collect()
}

} // verus!
