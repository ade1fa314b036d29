//! Random-number source for exploration, backed by the `rand` crate.
//!
//! The agent draws randomness only through the two wrappers below, so a
//! fixed seed makes a whole training run reproducible.  Nothing is
//! assumed about the values drawn beyond their range: every caller is
//! verified for all outcomes the contract admits.

use vstd::prelude::*;

verus! {

use rand::Rng;
use rand::SeedableRng;

#[verifier::external_type_specification]
#[verifier::external_body]
pub struct ExStdRng(rand::rngs::StdRng);

/// Relies on rand's `StdRng::seed_from_u64`: builds a generator from a
/// 64-bit seed.  Nothing is assumed about the stream it will produce.
#[verifier::external_body]
pub fn seed_rng(seed: u64) -> rand::rngs::StdRng {
    rand::rngs::StdRng::seed_from_u64(seed)
}

/// Relies on rand's `Rng::gen_range`: a draw from `0..bound` lies below
/// `bound`, and the call cannot panic because the range is non-empty.
#[verifier::external_body]
pub fn rand_below(rng: &mut rand::rngs::StdRng, bound: u64) -> (r: u64)
    requires
        bound > 0,
    ensures
        r < bound,
{
    rng.gen_range(0..bound)
}

} // verus!
