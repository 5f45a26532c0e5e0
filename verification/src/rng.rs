//! Randomness as an explicit generator instance passed into every
//! operation that needs it, behind trusted draws with stated ranges.

use vstd::prelude::*;

verus! {

/// The seedable random generator the library draws from.
#[verifier::external_type_specification]
#[verifier::external_body]
pub struct ExStdRng(rand::rngs::StdRng);

/// Relies on rand's `SeedableRng::seed_from_u64`: a generator seeded
/// from the given word, for reproducible runs. Nothing is claimed of
/// the stream it produces.
#[verifier::external_body]
pub fn rng_from_seed(seed: u64) -> rand::rngs::StdRng {
    <rand::rngs::StdRng as rand::SeedableRng>::seed_from_u64(seed)
}

/// Relies on rand's `random_range` over `0..bound`: a draw strictly
/// below the bound. The range must be non-empty, else the call panics.
#[verifier::external_body]
pub fn rand_index(rng: &mut rand::rngs::StdRng, bound: usize) -> (r: usize)
    requires
        bound > 0,
    ensures
        r < bound,
{
    rand::RngExt::random_range(rng, 0..bound)
}

/// Relies on rand's `random_range` over `0..=bound`: a draw at most the
/// bound; the inclusive range is never empty.
#[verifier::external_body]
pub fn rand_offset(rng: &mut rand::rngs::StdRng, bound: u64) -> (r: u64)
    ensures
        r <= bound,
{
    rand::RngExt::random_range(rng, 0..=bound)
}

} // verus!
