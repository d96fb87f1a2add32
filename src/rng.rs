//! The source of randomness: a seedable generator of the `rand` crate.
use vstd::prelude::*;
use rand::Rng;
use rand::SeedableRng;

verus! {

#[verifier::external_type_specification]
#[verifier::external_body]
pub struct ExStdRng(rand::rngs::StdRng);

/// A random number source owned by the caller and handed to every step that
/// draws (mutation, jitter, spawn positions).
pub struct SimRng {
    inner: rand::rngs::StdRng,
}

/// Relies on rand's `SeedableRng::seed_from_u64` for `StdRng`: builds a
/// generator from a 64-bit seed (it does not fail).
#[verifier::external_body]
fn std_rng_from_seed(seed: u64) -> (r: rand::rngs::StdRng) {
    rand::rngs::StdRng::seed_from_u64(seed)
}

/// Relies on rand's `Rng::gen_range` over an inclusive range of `i64`: the
/// value lies in `[lo, hi]`; the range is not empty, so it does not panic.
#[verifier::external_body]
fn std_rng_range(g: &mut rand::rngs::StdRng, lo: i64, hi: i64) -> (r: i64)
    requires
        lo <= hi,
    ensures
        lo <= r <= hi,
{
    g.gen_range(lo..=hi)
}

impl SimRng {
    /// A generator whose draws are fixed by `seed`.
    pub fn seeded(seed: u64) -> (r: SimRng) {
        SimRng { inner: std_rng_from_seed(seed) }
    }

    /// A uniform draw from `[lo, hi]`.
    pub fn range(&mut self, lo: i64, hi: i64) -> (r: i64)
        requires
            lo <= hi,
        ensures
            lo <= r <= hi,
    {
        std_rng_range(&mut self.inner, lo, hi)
    }
}

} // verus!
