//! The pseudo-random source of a simulation run: a seeded `StdRng` of `rand`.
use rand::rngs::StdRng;
use rand::Rng;
use rand::SeedableRng;
use vstd::prelude::*;

verus! {

#[verifier::external_type_specification]
#[verifier::external_body]
pub struct ExStdRng(rand::rngs::StdRng);

/// Relies on `rand_core::SeedableRng::seed_from_u64` for `StdRng`: a generator
/// whose whole output stream is fixed by `seed`. Nothing is promised of the
/// values it will produce.
#[verifier::external_body]
pub(crate) fn seeded_rng(seed: u64) -> (r: StdRng) {
    StdRng::seed_from_u64(seed)
}

/// Relies on `rand::Rng::gen::<bool>`: a uniformly drawn boolean.
#[verifier::external_body]
pub(crate) fn draw_bool(rng: &mut StdRng) -> (r: bool) {
    rng.gen::<bool>()
}

/// Relies on `rand::Rng::gen::<u64>`: a uniformly drawn 64-bit integer.
#[verifier::external_body]
pub(crate) fn draw_u64(rng: &mut StdRng) -> (r: u64) {
    rng.gen::<u64>()
}

} // verus!
