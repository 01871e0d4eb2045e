//! Declaration of the JSON value type that action parameters and
//! structured trait data carry. The runtime stores such values and hands
//! them back; it never looks inside them.

use vstd::prelude::*;

verus! {

#[verifier::external_type_specification]
#[verifier::external_body]
pub struct ExValue(serde_json::Value);

/// Relies on `serde_json::Value::clone`, a derived deep copy that
/// produces a structurally identical value.
pub assume_specification[ <serde_json::Value as Clone>::clone ](v: &serde_json::Value) -> (r:
    serde_json::Value)
    ensures
        r == *v,
;

} // verus!
