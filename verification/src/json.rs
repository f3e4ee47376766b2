//! What the library reads of a JSON document held as a `serde_json::Value`.

use vstd::prelude::*;
use serde_json::Value;

verus! {

/// Declares `serde_json::Value`, a JSON document. Nothing is claimed of what
/// one holds but through the names below.
#[verifier::external_type_specification]
#[verifier::external_body]
pub struct ExValue(serde_json::Value);

/// The member that a JSON object holds under `key`; `None` where `value` is
/// no object or has no such member.
pub uninterp spec fn json_member(value: Value, key: Seq<char>) -> Option<Value>;

/// The elements of a JSON array, in order; `None` where `value` is no array.
pub uninterp spec fn json_elements(value: Value) -> Option<Seq<Value>>;

/// The compact JSON text of `value`: what its `Display` impl writes.
pub uninterp spec fn json_text(value: Value) -> Seq<char>;

/// Calls `serde_json::Value::get` with a string key. Trusted: the result is the
/// member that `json_member` names, borrowed from `value`.
#[verifier::external_body]
pub(crate) fn member<'a>(value: &'a Value, key: &str) -> (found: Option<&'a Value>)
    ensures
        match found {
            Some(inner) => json_member(*value, key@) == Some(*inner),
            None => json_member(*value, key@).is_none(),
        },
{
    value.get(key)
}

/// Calls `serde_json::Value::as_array`. Trusted: the result is the vector of
/// elements that `json_elements` names, borrowed from `value`.
#[verifier::external_body]
pub(crate) fn elements<'a>(value: &'a Value) -> (found: Option<&'a Vec<Value>>)
    ensures
        match found {
            Some(inner) => json_elements(*value) == Some(inner@),
            None => json_elements(*value).is_none(),
        },
{
    value.as_array()
}

/// Calls `to_string` on a `serde_json::Value`. Trusted: the result is the
/// compact JSON text that `json_text` names.
#[verifier::external_body]
pub(crate) fn to_text(value: &Value) -> (text: String)
    ensures
        text@ == json_text(*value),
{
    value.to_string()
}

} // verus!
