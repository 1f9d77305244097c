//! The single source of randomness the library consumes: fresh 128-bit
//! values for session ids and identity ids.

use vstd::prelude::*;

verus! {

/// Relies on `uuid::Uuid::new_v4`, which draws a fresh random UUID from
/// the operating system's randomness source; `as_u128` returns its 128
/// bits. Nothing can be promised of a random value.
#[verifier::external_body]
pub fn random_u128() -> u128 {
    uuid::Uuid::new_v4().as_u128()
}

} // verus!
