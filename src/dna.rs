//! Heritable traits and their mutation.
use vstd::prelude::*;
use crate::fixed::{SCALE, clamp, clamp_spec, div_trunc, div_toward_zero};
use crate::rng::SimRng;

verus! {

/// Lower clamp of a scalar trait (0.1).
pub const TRAIT_MIN: i64 = 100;
/// Upper clamp of a scalar trait (100.0).
pub const TRAIT_MAX: i64 = 100_000;
/// Lower clamp of a color channel (0.2).
pub const CHANNEL_MIN: i64 = 200;
/// Upper clamp of a color channel (1.0).
pub const CHANNEL_MAX: i64 = 1000;
/// The fixed alpha of every genome's color (0.9).
pub const ALPHA: i64 = 900;
/// Bound of the additive drift of a color channel per generation (0.05).
pub const COLOR_DRIFT: i64 = 50;
/// A probability in per mille: a roll in `[0, PER_MILLE)` below the rate hits.
pub const PER_MILLE: i64 = 1000;

/// A display color, each channel in thousandths.
#[derive(Clone, Copy, Debug, PartialEq, Eq, Structural)]
pub struct Color {
    pub r: i64,
    pub g: i64,
    pub b: i64,
    pub a: i64,
}

/// The heritable traits of a prey agent.
#[derive(Clone, Copy, Debug, PartialEq, Eq, Structural)]
pub struct Dna {
    pub speed: i64,
    pub size: i64,
    pub sense_radius: i64,
    pub color: Color,
}

/// The random draws that one mutation consumes: for each scalar trait a roll
/// in `[0, PER_MILLE)` and a relative change in per mille, and for each color
/// channel an additive drift.
#[derive(Clone, Copy, Debug, PartialEq, Eq, Structural)]
pub struct Mutation {
    pub speed_roll: i64,
    pub speed_delta: i64,
    pub size_roll: i64,
    pub size_delta: i64,
    pub sense_roll: i64,
    pub sense_delta: i64,
    pub r_drift: i64,
    pub g_drift: i64,
    pub b_drift: i64,
}

pub open spec fn trait_ok(v: i64) -> bool {
    TRAIT_MIN <= v <= TRAIT_MAX
}

pub open spec fn channel_ok(v: i64) -> bool {
    CHANNEL_MIN <= v <= CHANNEL_MAX
}

/// A scalar trait after a roll: scaled by `1 + delta` and clamped when the roll
/// falls under the rate, else unchanged.
pub open spec fn mutated_trait(v: int, roll: int, delta: int, rate: int) -> int {
    if roll < rate {
        clamp_spec(div_trunc(v * (SCALE + delta), SCALE as int), TRAIT_MIN as int, TRAIT_MAX as int)
    } else {
        v
    }
}

/// A color channel after an additive drift, clamped.
pub open spec fn drifted_channel(c: int, drift: int) -> int {
    clamp_spec(c + drift, CHANNEL_MIN as int, CHANNEL_MAX as int)
}

impl Color {
    pub open spec fn wf(self) -> bool {
        channel_ok(self.r) && channel_ok(self.g) && channel_ok(self.b) && self.a == ALPHA
    }
}

impl Mutation {
    /// The draws lie in the ranges that a mutation of the given strength uses.
    pub open spec fn within(self, strength: int) -> bool {
        &&& 0 <= self.speed_roll < PER_MILLE
        &&& 0 <= self.size_roll < PER_MILLE
        &&& 0 <= self.sense_roll < PER_MILLE
        &&& -strength <= self.speed_delta <= strength
        &&& -strength <= self.size_delta <= strength
        &&& -strength <= self.sense_delta <= strength
        &&& -COLOR_DRIFT <= self.r_drift <= COLOR_DRIFT
        &&& -COLOR_DRIFT <= self.g_drift <= COLOR_DRIFT
        &&& -COLOR_DRIFT <= self.b_drift <= COLOR_DRIFT
    }
}

impl Dna {
    /// Every scalar trait and color channel lies within its clamp range.
    pub open spec fn wf(self) -> bool {
        trait_ok(self.speed) && trait_ok(self.size) && trait_ok(self.sense_radius)
            && self.color.wf()
    }

    /// Within the ranges of a randomly drawn genome.
    pub open spec fn is_fresh(self) -> bool {
        &&& 1000 <= self.speed < 3000
        &&& 3000 <= self.size < 8000
        &&& 20_000 <= self.sense_radius < 60_000
        &&& CHANNEL_MIN <= self.color.r < CHANNEL_MAX
        &&& CHANNEL_MIN <= self.color.g < CHANNEL_MAX
        &&& CHANNEL_MIN <= self.color.b < CHANNEL_MAX
        &&& self.color.a == ALPHA
    }

    /// The genome that `m` makes of `self` at mutation rate `rate` (per mille).
    pub open spec fn mutated(self, m: Mutation, rate: int) -> Dna {
        Dna {
            speed: mutated_trait(self.speed as int, m.speed_roll as int, m.speed_delta as int, rate) as i64,
            size: mutated_trait(self.size as int, m.size_roll as int, m.size_delta as int, rate) as i64,
            sense_radius: mutated_trait(
                self.sense_radius as int,
                m.sense_roll as int,
                m.sense_delta as int,
                rate,
            ) as i64,
            color: Color {
                r: drifted_channel(self.color.r as int, m.r_drift as int) as i64,
                g: drifted_channel(self.color.g as int, m.g_drift as int) as i64,
                b: drifted_channel(self.color.b as int, m.b_drift as int) as i64,
                a: ALPHA,
            },
        }
    }

    /// A random genome: speed in `[1.0, 3.0)`, size in `[3.0, 8.0)`, sense
    /// radius in `[20.0, 60.0)`, each channel in `[0.2, 1.0)`.
    pub fn random(rng: &mut SimRng) -> (r: Dna)
        ensures
            r.wf(),
            r.is_fresh(),
    {
        let speed = rng.range(1000, 2999);
        let size = rng.range(3000, 7999);
        let sense_radius = rng.range(20_000, 59_999);
        let r = rng.range(CHANNEL_MIN, CHANNEL_MAX - 1);
        let g = rng.range(CHANNEL_MIN, CHANNEL_MAX - 1);
        let b = rng.range(CHANNEL_MIN, CHANNEL_MAX - 1);
        Dna { speed, size, sense_radius, color: Color { r, g, b, a: ALPHA } }
    }

    /// Applies the draws `m` at mutation rate `rate` (per mille).
    pub fn apply_mutation(&self, m: &Mutation, rate: u32) -> (r: Dna)
        requires
            self.wf(),
            m.within(u32::MAX as int),
        ensures
            r == self.mutated(*m, rate as int),
            r.wf(),
    {
        let rate = rate as i64;
        let speed = mutate_trait(self.speed, m.speed_roll, m.speed_delta, rate);
        let size = mutate_trait(self.size, m.size_roll, m.size_delta, rate);
        let sense_radius = mutate_trait(self.sense_radius, m.sense_roll, m.sense_delta, rate);
        let r = clamp(self.color.r + m.r_drift, CHANNEL_MIN, CHANNEL_MAX);
        let g = clamp(self.color.g + m.g_drift, CHANNEL_MIN, CHANNEL_MAX);
        let b = clamp(self.color.b + m.b_drift, CHANNEL_MIN, CHANNEL_MAX);
        Dna { speed, size, sense_radius, color: Color { r, g, b, a: ALPHA } }
    }

    /// A mutated copy: each scalar trait, with probability `rate` per mille,
    /// is scaled by `1 + delta` for a `delta` drawn from `[-strength, strength]`
    /// per mille; each color channel drifts by up to `COLOR_DRIFT`. Whatever the
    /// rate and strength, the copy stays within the clamp ranges.
    pub fn mutate(&self, rate: u32, strength: u32, rng: &mut SimRng) -> (r: Dna)
        requires
            self.wf(),
        ensures
            r.wf(),
            exists|m: Mutation| #[trigger] m.within(strength as int) && r == self.mutated(m, rate as int),
    {
        let s = strength as i64;
        let speed_roll = rng.range(0, PER_MILLE - 1);
        let speed_delta = rng.range(-s, s);
        let size_roll = rng.range(0, PER_MILLE - 1);
        let size_delta = rng.range(-s, s);
        let sense_roll = rng.range(0, PER_MILLE - 1);
        let sense_delta = rng.range(-s, s);
        let r_drift = rng.range(-COLOR_DRIFT, COLOR_DRIFT);
        let g_drift = rng.range(-COLOR_DRIFT, COLOR_DRIFT);
        let b_drift = rng.range(-COLOR_DRIFT, COLOR_DRIFT);
        let m = Mutation {
            speed_roll,
            speed_delta,
            size_roll,
            size_delta,
            sense_roll,
            sense_delta,
            r_drift,
            g_drift,
            b_drift,
        };
        let r = self.apply_mutation(&m, rate);
        assert(m.within(strength as int));
        r
    }
}

/// `child` is a genome that one mutation of `parent` at the given rate and
/// strength can produce.
pub open spec fn possible_child(parent: Dna, child: Dna, rate: int, strength: int) -> bool {
    exists|m: Mutation| m.within(strength) && child == #[trigger] parent.mutated(m, rate)
}

/// The draws of a mutation that changes nothing.
pub open spec fn no_mutation() -> Mutation {
    Mutation {
        speed_roll: 0,
        speed_delta: 0,
        size_roll: 0,
        size_delta: 0,
        sense_roll: 0,
        sense_delta: 0,
        r_drift: 0,
        g_drift: 0,
        b_drift: 0,
    }
}

/// One scalar trait after a roll against `rate`.
fn mutate_trait(v: i64, roll: i64, delta: i64, rate: i64) -> (r: i64)
    requires
        trait_ok(v),
        -(u32::MAX as int) <= delta <= u32::MAX,
    ensures
        r == mutated_trait(v as int, roll as int, delta as int, rate as int),
        trait_ok(r),
{
    if roll < rate {
        assert(-(TRAIT_MAX as int) * (SCALE + u32::MAX) <= v * (SCALE + delta) <= (TRAIT_MAX as int) * (SCALE + u32::MAX)) by (nonlinear_arith)
            requires
                0 <= v <= TRAIT_MAX,
                -(u32::MAX as int) <= delta <= u32::MAX,
        ;
        let scaled = div_toward_zero(v * (SCALE + delta), SCALE);
        clamp(scaled, TRAIT_MIN, TRAIT_MAX)
    } else {
        v
    }
}

} // verus!
