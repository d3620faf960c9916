//! Trusted access to the process random number generator.
//!
//! Nothing can be promised about which value comes back, only that it lies
//! below the requested bound; every caller must hold for all such values.

use vstd::prelude::*;
use rand::Rng;

verus! {

/// Relies on rand::Rng::random_range over `0..bound`: the result is drawn
/// uniformly from `[0, bound)`; the range is non-empty, so the call does
/// not panic.
#[verifier::external_body]
pub(crate) fn random_u32_below(bound: u32) -> (r: u32)
    requires
        bound >= 1,
    ensures
        r < bound,
{
    rand::rng().random_range(0..bound)
}

/// Relies on rand::Rng::random_range over `0..bound`: the result is drawn
/// uniformly from `[0, bound)`; the range is non-empty, so the call does
/// not panic.
#[verifier::external_body]
pub(crate) fn random_u128_below(bound: u128) -> (r: u128)
    requires
        bound >= 1,
    ensures
        r < bound,
{
    rand::rng().random_range(0..bound)
}

/// Relies on rand::Rng::random: a uniformly random 128-bit value; nothing
/// holds of it beyond its type.
#[verifier::external_body]
pub(crate) fn random_u128_any() -> (r: u128)
{
    rand::rng().random::<u128>()
}

} // verus!
