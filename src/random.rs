//! The random source the swarm draws from.
use vstd::prelude::*;

use rand::Rng;
use rand::SeedableRng;

use crate::particle::SCALE;

verus! {

#[verifier::external_type_specification]
#[verifier::external_body]
pub struct ExStdRng(rand::rngs::StdRng);

/// Relies on rand's `SeedableRng::seed_from_u64`: a generator determined by `seed`.
#[verifier::external_body]
fn seeded_rng(seed: u64) -> (r: rand::rngs::StdRng) {
    rand::rngs::StdRng::seed_from_u64(seed)
}

/// Relies on rand's `Rng::gen_range` over an inclusive range: a value in `[lo, hi]`
/// (it panics on an empty range, which `requires` leaves out).
#[verifier::external_body]
fn draw_in_range(rng: &mut rand::rngs::StdRng, lo: i64, hi: i64) -> (r: i64)
    requires
        lo <= hi,
    ensures
        lo <= r <= hi,
{
    rng.gen_range(lo..=hi)
}

/// A seedable stream of uniform draws: the same seed gives the same stream.
pub struct RandomSource {
    rng: rand::rngs::StdRng,
}

impl RandomSource {
    /// A stream started from `seed`.
    pub fn from_seed(seed: u64) -> (r: RandomSource) {
        RandomSource { rng: seeded_rng(seed) }
    }

    /// A uniform draw from `[lo, hi]`.
    pub fn between(&mut self, lo: i64, hi: i64) -> (r: i64)
        requires
            lo <= hi,
        ensures
            lo <= r <= hi,
    {
        draw_in_range(&mut self.rng, lo, hi)
    }

    /// A uniform draw from the unit interval, as a fixed-point number in `[0, SCALE]`.
    pub fn unit(&mut self) -> (r: i64)
        ensures
            0 <= r <= SCALE,
    {
        draw_in_range(&mut self.rng, 0, SCALE)
    }
}

} // verus!
