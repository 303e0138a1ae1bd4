use vstd::prelude::*;

verus! {

/// A JSON document, carried through the library as it is.
#[verifier::external_type_specification]
#[verifier::external_body]
pub struct ExJsonValue(serde_json::Value);

/// Whether a JSON document is an object.
pub uninterp spec fn is_json_object(v: serde_json::Value) -> bool;

/// Relies on serde_json's `Value::is_object`: true exactly for the `Object`
/// variant, which depends on the value alone.
pub assume_specification[ serde_json::Value::is_object ](v: &serde_json::Value) -> (r: bool)
    ensures
        r == is_json_object(*v),
;

/// Relies on serde_json's derived `Clone` for `Value`: a deep copy, equal to
/// the value copied.
pub assume_specification[ <serde_json::Value as Clone>::clone ](v: &serde_json::Value) -> (r:
    serde_json::Value)
    ensures
        r == *v,
;

} // verus!
