use vstd::prelude::*;

verus! {

/// Relies on uuid::Uuid::new_v4, read through uuid::Uuid::as_u128: a random
/// version-4 identifier as a 128-bit value. Nothing is promised of the value,
/// so callers check it for freshness where that matters.
#[verifier::external_body]
pub(crate) fn fresh_id() -> (r: u128) {
    uuid::Uuid::new_v4().as_u128()
}

} // verus!
