//! Fresh identifiers for traits and objects.

use vstd::prelude::*;

verus! {

/// Relies on `uuid::Uuid::new_v4`, which draws a fresh random version-4
/// identifier; the 128-bit value is random, so nothing is promised of it.
#[verifier::external_body]
pub(crate) fn fresh_id() -> u128 {
    uuid::Uuid::new_v4().as_u128()
}

} // verus!
