//! The JSON reading this library relies on, through serde_json.
use vstd::prelude::*;

use serde_json::Value;

verus! {

#[verifier::external_type_specification]
#[verifier::external_body]
pub struct ExValue(Value);

#[verifier::external_type_specification]
#[verifier::external_body]
pub struct ExJsonError(serde_json::Error);

/// The JSON value that the bytes `text` hold, if they are valid JSON text.
pub uninterp spec fn json_parse(text: Seq<u8>) -> Option<Value>;

/// The members of `v` in document order, if `v` is an object.
pub uninterp spec fn json_object(v: Value) -> Option<Seq<(Seq<char>, Value)>>;

/// The member `key` of `v`, if `v` is an object that has one.
pub uninterp spec fn json_member(v: Value, key: Seq<char>) -> Option<Value>;

/// The text of `v`, if `v` is a string.
pub uninterp spec fn json_str(v: Value) -> Option<Seq<char>>;

/// The items of `v`, if `v` is an array.
pub uninterp spec fn json_array(v: Value) -> Option<Seq<Value>>;

/// `v` as a `u64`, if it is an integer number in the range of `u64`.
pub uninterp spec fn json_u64(v: Value) -> Option<u64>;

/// Relies on `serde_json::from_slice`: reads header text as one JSON value;
/// the outcome depends on the bytes alone.
#[verifier::external_body]
pub(crate) fn parse_json(text: &[u8]) -> (r: Result<Value, serde_json::Error>)
    ensures
        r is Ok <==> json_parse(text@) is Some,
        r matches Ok(v) ==> json_parse(text@) == Some(v),
{
    serde_json::from_slice(text)
}

/// Relies on `Value::as_object` and the iterator of `serde_json::Map`: the
/// entries of a JSON object in header order. A map holds each key once, so the
/// keys handed out are distinct.
#[verifier::external_body]
pub(crate) fn object_entries(v: &Value) -> (r: Option<Vec<(String, Value)>>)
    ensures
        r is Some <==> json_object(*v) is Some,
        r matches Some(es) ==> json_object(*v) == Some(
            es@.map_values(|e: (String, Value)| (e.0@, e.1)),
        ),
        r matches Some(es) ==> forall|i: int, j: int|
            0 <= i < j < es.len() ==> (#[trigger] es@[i]).0@ != (#[trigger] es@[j]).0@,
{
    v.as_object().map(|m| m.iter().map(|(k, x)| (k.clone(), x.clone())).collect())
}

/// Relies on `Value::get`: the member `key` of a JSON object, if there is one.
#[verifier::external_body]
pub(crate) fn member(v: &Value, key: &str) -> (r: Option<Value>)
    ensures
        r == json_member(*v, key@),
{
    v.get(key).cloned()
}

/// Relies on `Value::as_str`: the text of a JSON string.
pub assume_specification[ Value::as_str ](v: &Value) -> (r: Option<&str>)
    ensures
        r is Some <==> json_str(*v) is Some,
        r matches Some(s) ==> json_str(*v) == Some(s@),
;

/// Relies on `Value::as_array`: the items of a JSON array.
pub assume_specification[ Value::as_array ](v: &Value) -> (r: Option<&Vec<Value>>)
    ensures
        r is Some <==> json_array(*v) is Some,
        r matches Some(a) ==> json_array(*v) == Some(a@),
;

/// Relies on `Value::as_u64`: a JSON number that is a non-negative integer.
pub assume_specification[ Value::as_u64 ](v: &Value) -> (r: Option<u64>)
    ensures
        r == json_u64(*v),
;

} // verus!
