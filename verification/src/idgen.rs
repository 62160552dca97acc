//! Model-identifier generation.

use vstd::prelude::*;

verus! {

/// Relies on uuid's `Uuid::now_v7` and `Uuid::as_u128`: a fresh
/// time-ordered version-7 identifier, carried as its 128-bit value.
/// Distinctness and ordering of successive identifiers are not
/// assumed; callers must hold for every value that could come back.
#[verifier::external_body]
pub fn new_model_id() -> u128 {
    uuid::Uuid::now_v7().as_u128()
}

} // verus!
