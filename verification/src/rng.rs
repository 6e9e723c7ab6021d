//! Random draws for the loot engine, behind trusted wrappers.
//!
//! The engine draws from a `rand::rngs::StdRng` seeded from the operating
//! system. Nothing is assumed about which numbers come out beyond the range
//! that the drawing function guarantees; every caller is verified for every
//! possible draw.

use vstd::prelude::*;

verus! {

#[verifier::external_type_specification]
#[verifier::external_body]
pub struct ExStdRng(rand::rngs::StdRng);

/// Relies on `rand::rngs::StdRng::from_rng` seeded from `rand::rngs::OsRng`:
/// fails only when the operating system cannot supply entropy.
#[verifier::external_body]
pub fn new_mining_rng() -> Option<rand::rngs::StdRng> {
    match rand::SeedableRng::from_rng(rand::rngs::OsRng) {
        Ok(rng) => Some(rng),
        Err(_) => None,
    }
}

/// Relies on `rand::Rng::gen_range`: a draw over `low..high` yields a value
/// in `[low, high)` and panics only on an empty range.
#[verifier::external_body]
pub fn gen_range_u64(rng: &mut rand::rngs::StdRng, bound: u64) -> (r: u64)
    requires
        bound > 0,
    ensures
        r < bound,
{
    rand::Rng::gen_range(rng, 0..bound)
}

} // verus!
