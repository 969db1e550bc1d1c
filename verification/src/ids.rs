//! Fresh 128-bit identifiers for items and orders.

use vstd::prelude::*;

verus! {

/// Relies on uuid::Uuid::new_v4 for a freshly generated random version-4
/// UUID, carried as its 128-bit value. The result comes from the operating
/// system's random number generator, so nothing is assumed of it.
#[verifier::external_body]
pub(crate) fn fresh_id() -> u128 {
    uuid::Uuid::new_v4().as_u128()
}

} // verus!
