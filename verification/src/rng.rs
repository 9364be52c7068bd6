//! The random source for level generation: a seedable generator passed
//! explicitly into every stage that needs randomness, so a fixed seed
//! reproduces a level exactly.

use vstd::prelude::*;

use rand::rngs::StdRng;

verus! {

#[verifier::external_type_specification]
#[verifier::external_body]
pub struct ExStdRng(StdRng);

/// Relies on rand's `SeedableRng::seed_from_u64`: builds a generator from a
/// plain seed; the crate documents the construction as reproducible.
#[verifier::external_body]
pub fn seed_rng(seed: u64) -> StdRng {
    <StdRng as rand::SeedableRng>::seed_from_u64(seed)
}

/// Relies on rand's `RngExt::random_range`: returns a value inside the given
/// half-open range, and panics only when the range is empty, which the
/// precondition rules out.
#[verifier::external_body]
pub(crate) fn rand_range(rng: &mut StdRng, lo: u32, hi: u32) -> (r: u32)
    requires
        lo < hi,
    ensures
        lo <= r < hi,
{
    rand::RngExt::random_range(rng, lo..hi)
}

/// An unweighted coin flip, built on the ranged draw.
pub fn coin_flip(rng: &mut StdRng) -> bool {
    rand_range(rng, 0, 2) == 1
}

} // verus!
