//! Schema-less JSON values, carried through the models without being read.
use vstd::prelude::*;

verus! {

/// `serde_json::Value`, an arbitrary JSON document. The models only store
/// and move such values; none of their rules depends on what is inside.
#[verifier::external_type_specification]
#[verifier::external_body]
pub struct ExJsonValue(serde_json::Value);

/// `serde_json::Value::clone` (derived): copies a document. The models only
/// need the copy to exist, so nothing is claimed of it.
pub assume_specification[ <serde_json::Value as Clone>::clone ](v: &serde_json::Value) -> serde_json::Value;

/// Relies on `serde_json::Value::Null`: the JSON null.
#[verifier::external_body]
pub(crate) fn json_null() -> serde_json::Value {
    serde_json::Value::Null
}

/// Relies on `serde_json::Value::String`: the JSON string holding `s`.
#[verifier::external_body]
pub(crate) fn json_string(s: String) -> serde_json::Value {
    serde_json::Value::String(s)
}

/// Relies on `serde_json::Value::Array`: the JSON array of `items`, in order.
#[verifier::external_body]
pub(crate) fn json_array(items: Vec<serde_json::Value>) -> serde_json::Value {
    serde_json::Value::Array(items)
}

/// Relies on `serde_json::Value::Object` and `Map`'s `FromIterator`: the JSON
/// object with the given members.
#[verifier::external_body]
pub(crate) fn json_object(members: Vec<(String, serde_json::Value)>) -> serde_json::Value {
    serde_json::Value::Object(members.into_iter().collect())
}

} // verus!
