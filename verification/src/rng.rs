//! The random number generator that the library draws from.

use vstd::prelude::*;

use rand::rngs::StdRng;

verus! {

/// `rand::rngs::StdRng`, a seedable pseudo-random generator. Its state is
/// opaque here: nothing in the library depends on what is inside it.
#[verifier::external_type_specification]
#[verifier::external_body]
pub struct ExStdRng(rand::rngs::StdRng);

/// Creates a generator with `rand::SeedableRng::seed_from_u64`.
/// Nothing is claimed about the generator that comes back.
#[verifier::external_body]
pub fn seeded(seed: u64) -> (rng: StdRng) {
    <StdRng as rand::SeedableRng>::seed_from_u64(seed)
}

/// Draws the next word with `rand::RngCore::next_u32`. Any `u32` may come
/// back, and the generator's state changes in a way that is not stated.
#[verifier::external_body]
pub fn next_u32(rng: &mut StdRng) -> (draw: u32) {
    rand::RngCore::next_u32(rng)
}

} // verus!
