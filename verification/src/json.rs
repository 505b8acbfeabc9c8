//! JSON values, carried through the library as opaque values.

use vstd::prelude::*;
use serde_json::Value;

verus! {

#[verifier::external_type_specification]
#[verifier::external_body]
pub struct ExJsonValue(Value);

/// Calls `serde_json::Value::clone`, a derived deep copy: the copy is the same value.
#[verifier::external_body]
pub(crate) fn clone_json(v: &Value) -> (r: Value)
    ensures
        r == *v,
{
    v.clone()
}

/// A copy of an optional JSON value.
pub fn clone_opt_json(v: &Option<Value>) -> (r: Option<Value>)
    ensures
        r == *v,
{
    match v {
        Some(x) => Some(clone_json(x)),
        None => None,
    }
}

#[verifier::external_type_specification]
#[verifier::external_body]
#[verifier::reject_recursive_types(K)]
#[verifier::reject_recursive_types(V)]
pub struct ExJsonMap<K, V>(serde_json::Map<K, V>);

/// The map of a JSON object.
pub type JsonMap = serde_json::Map<String, Value>;

/// The entries of a JSON object's map, by key.
pub uninterp spec fn json_map_entries(m: JsonMap) -> Map<Seq<char>, Value>;

/// The JSON object holding `entries`.
pub uninterp spec fn json_object_value(entries: Map<Seq<char>, Value>) -> Value;

/// The JSON string holding `s`.
pub uninterp spec fn json_string_value(s: Seq<char>) -> Value;

/// The JSON boolean `b`.
pub uninterp spec fn json_bool_value(b: bool) -> Value;

/// The JSON array holding `items`, in order.
pub uninterp spec fn json_array_value(items: Seq<Value>) -> Value;

/// Calls `serde_json::Map::new`, which makes an empty map.
#[verifier::external_body]
pub(crate) fn new_json_map() -> (m: JsonMap)
    ensures
        json_map_entries(m).dom() == Set::<Seq<char>>::empty(),
{
    serde_json::Map::new()
}

/// Calls `serde_json::Map::insert`, which sets the entry of `key` to `value`, replacing
/// the entry the key had.
#[verifier::external_body]
pub(crate) fn json_map_insert(m: &mut JsonMap, key: String, value: Value)
    ensures
        json_map_entries(*final(m)) == json_map_entries(*old(m)).insert(key@, value),
{
    m.insert(key, value);
}

/// Builds `Value::Object` from a map.
#[verifier::external_body]
pub(crate) fn json_object(m: JsonMap) -> (v: Value)
    ensures
        v == json_object_value(json_map_entries(m)),
{
    Value::Object(m)
}

/// Builds `Value::String` holding a copy of `s`.
#[verifier::external_body]
pub(crate) fn json_string(s: &str) -> (v: Value)
    ensures
        v == json_string_value(s@),
{
    Value::String(s.to_owned())
}

/// Builds `Value::Bool`.
#[verifier::external_body]
pub(crate) fn json_bool(b: bool) -> (v: Value)
    ensures
        v == json_bool_value(b),
{
    Value::Bool(b)
}

/// Builds `Value::Array` from the items, in their order.
#[verifier::external_body]
pub(crate) fn json_array(items: Vec<Value>) -> (v: Value)
    ensures
        v == json_array_value(items@),
{
    Value::Array(items)
}

} // verus!
