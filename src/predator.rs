//! Predators: movement, pursuit of the nearest prey, metabolism and
//! reproduction. Their physical parameters do not mutate.
use vstd::prelude::*;
use crate::dna::TRAIT_MAX;
use crate::fixed::{ENERGY_CAP, SCALE, clamp};
use crate::geom::{Vec2, is_heading, normalize, unit_spec};
use crate::motion::{
    MULT_CAP, SPEED_CAP, WORLD_CAP, advance, advanced, blend, blended, direction, in_world, vec_of,
    nearest_scan, nearest_within, rotate, rotated, toward, world_ok,
};
use crate::prey::{Bacterium, energy_after};
use crate::rng::SimRng;

verus! {

/// Starting energy of a predator (150.0).
pub const PREDATOR_ENERGY: i64 = 150_000;
/// Speed of every predator (2.5).
pub const PREDATOR_SPEED: i64 = 2500;
/// Size of every predator (12.0).
pub const PREDATOR_SIZE: i64 = 12_000;
/// Sense radius of every predator (100.0).
pub const PREDATOR_SENSE: i64 = 100_000;
/// Weight (0.3) of the direction toward prey in a predator's new heading.
pub const PURSUIT_WEIGHT: i64 = 300;
/// Bound of a predator's heading jitter (0.15 rad).
pub const PREDATOR_JITTER: i64 = 150;
/// Energy a predator spends per tick at multiplier 1.0 (0.2).
pub const PREDATOR_COST: i64 = 200;

/// A predator.
#[derive(Clone, Copy, Debug, PartialEq, Eq, Structural)]
pub struct Predator {
    pub pos: Vec2,
    pub vel: Vec2,
    pub energy: i64,
    pub speed: i64,
    pub size: i64,
    pub sense_radius: i64,
}

/// The positions of the prey `bs`, in order.
pub open spec fn positions(bs: Seq<Bacterium>) -> Seq<Vec2> {
    bs.map_values(|b: Bacterium| b.pos)
}

/// The new heading of a predator at `pos` moving along `vel`: toward the
/// nearest prey within `sense`, else turned by `jitter`.
pub open spec fn predator_heading(pos: Vec2, vel: Vec2, prey: Seq<Vec2>, sense: int, jitter: int) -> Vec2 {
    match nearest_scan(pos, prey, sense * sense) {
        Some(i) => blended(vel, toward(pos, prey[i]), PURSUIT_WEIGHT as int),
        None => rotated(vel, jitter),
    }
}

/// Energy a predator spends in one tick at multiplier `mult`.
pub open spec fn predator_cost(mult: int) -> int {
    PREDATOR_COST * mult / (SCALE as int)
}

impl Predator {
    /// Inside the world, with a unit heading, physical parameters in range
    /// and energy within `ENERGY_CAP`.
    pub open spec fn wf(self, w: int, h: int) -> bool {
        &&& in_world(self.pos, w, h)
        &&& is_heading(self.vel)
        &&& 0 <= self.speed <= SPEED_CAP
        &&& 0 <= self.size <= TRAIT_MAX
        &&& 0 <= self.sense_radius <= TRAIT_MAX
        &&& -ENERGY_CAP <= self.energy <= ENERGY_CAP
    }

    /// The predator after one update with heading jitter `jitter`.
    pub open spec fn stepped(self, w: int, h: int, prey: Seq<Vec2>, mult: int, jitter: int) -> Predator {
        let (pos, vel) = advanced(self.pos, self.vel, self.speed as int, mult, w, h);
        Predator {
            pos,
            vel: predator_heading(pos, vel, prey, self.sense_radius as int, jitter),
            energy: energy_after(self.energy as int, -predator_cost(mult)),
            ..self
        }
    }

    /// The offspring of a predator: same place and parameters, reversed
    /// heading, half the energy.
    pub open spec fn child(self) -> Predator {
        Predator {
            vel: Vec2 { x: -self.vel.x as i64, y: -self.vel.y as i64 },
            energy: (self.energy / 2) as i64,
            ..self
        }
    }

    /// A fresh predator at `pos` with a random heading.
    pub fn new(pos: Vec2, rng: &mut SimRng) -> (r: Predator)
        ensures
            r.pos == pos,
            is_heading(r.vel),
            random_heading_of(r.vel),
            r.energy == PREDATOR_ENERGY,
            r.speed == PREDATOR_SPEED,
            r.size == PREDATOR_SIZE,
            r.sense_radius == PREDATOR_SENSE,
    {
        let vel = random_heading(rng);
        Predator {
            pos,
            vel,
            energy: PREDATOR_ENERGY,
            speed: PREDATOR_SPEED,
            size: PREDATOR_SIZE,
            sense_radius: PREDATOR_SENSE,
        }
    }

    /// One update with a given heading jitter (milliradians): move and
    /// bounce, pursue the nearest visible prey or wander, pay the cost.
    pub fn steer(&mut self, w: i64, h: i64, prey: &Vec<Vec2>, mult: i64, jitter: i64)
        requires
            world_ok(w as int, h as int),
            old(self).wf(w as int, h as int),
            0 <= mult <= MULT_CAP,
            -PREDATOR_JITTER <= jitter <= PREDATOR_JITTER,
            forall|j: int| 0 <= j < prey@.len() ==> #[trigger] in_world(prey@[j], w as int, h as int),
        ensures
            *final(self) == old(self).stepped(w as int, h as int, prey@, mult as int, jitter as int),
            final(self).wf(w as int, h as int),
    {
        let moved = advance(self.pos, self.vel, self.speed, mult, w, h);
        let pos = moved.0;
        let mut vel = moved.1;
        assert forall|j: int| 0 <= j < prey@.len() implies #[trigger] in_world(prey@[j], WORLD_CAP as int, WORLD_CAP as int) by {
            assert(in_world(prey@[j], w as int, h as int));
        }
        let sense = self.sense_radius;
        assert(0 <= sense * sense <= (TRAIT_MAX as int) * (TRAIT_MAX as int)) by (nonlinear_arith)
            requires
                0 <= sense <= TRAIT_MAX,
        ;
        match nearest_within(pos, prey, sense * sense) {
            Some(i) => {
                assert(in_world(prey@[i as int], w as int, h as int));
                let dir = direction(pos, prey[i]);
                vel = blend(vel, dir, PURSUIT_WEIGHT);
            },
            None => {
                vel = rotate(vel, jitter);
            },
        }
        let cost = PREDATOR_COST * mult / SCALE;
        self.pos = pos;
        self.vel = vel;
        self.energy = clamp(self.energy - cost, -ENERGY_CAP, ENERGY_CAP);
    }

    /// One update toward the prey at `prey`, drawing the jitter from `rng`.
    pub fn update(&mut self, w: i64, h: i64, prey: &Vec<Vec2>, mult: i64, rng: &mut SimRng)
        requires
            world_ok(w as int, h as int),
            old(self).wf(w as int, h as int),
            0 <= mult <= MULT_CAP,
            forall|j: int| 0 <= j < prey@.len() ==> #[trigger] in_world(prey@[j], w as int, h as int),
        ensures
            exists|jitter: int|
                -PREDATOR_JITTER <= jitter < PREDATOR_JITTER && *final(self) == #[trigger] old(self).stepped(
                    w as int,
                    h as int,
                    prey@,
                    mult as int,
                    jitter,
                ),
            final(self).wf(w as int, h as int),
    {
        let jitter = rng.range(-PREDATOR_JITTER, PREDATOR_JITTER - 1);
        self.steer(w, h, prey, mult, jitter);
    }

    /// Splits off an offspring: the parent keeps half its energy and the
    /// offspring gets the same half.
    pub fn split_off(&mut self) -> (child: Predator)
        requires
            old(self).energy > 0,
            is_heading(old(self).vel),
        ensures
            child == old(self).child(),
            *final(self) == (Predator { energy: (old(self).energy / 2) as i64, ..*old(self) }),
    {
        let half = self.energy / 2;
        self.energy = half;
        Predator { vel: Vec2 { x: -self.vel.x, y: -self.vel.y }, energy: half, ..*self }
    }
}

/// A unit heading toward a non-zero point of the square `[-1, 1]^2`.
pub open spec fn random_heading_of(r: Vec2) -> bool {
    exists|x: int, y: int|
        -SCALE <= x <= SCALE && -SCALE <= y <= SCALE && (x != 0 || y != 0) && r == #[trigger] vec_of(unit_spec(x, y))
}

/// A random heading: a direction drawn from the square `[-1, 1]^2` and
/// scaled to unit length, `(1, 0)` when the draw is the zero vector.
pub fn random_heading(rng: &mut SimRng) -> (r: Vec2)
    ensures
        is_heading(r),
        random_heading_of(r),
{
    let x = rng.range(-SCALE, SCALE);
    let y = rng.range(-SCALE, SCALE);
    let (x, y) = if x == 0 && y == 0 {
        (SCALE, 0)
    } else {
        (x, y)
    };
    let r = normalize(x, y);
    assert(r == vec_of(unit_spec(x as int, y as int)));
    r
}

/// The positions of the prey `bs`, in order.
pub fn prey_positions(bs: &Vec<Bacterium>) -> (r: Vec<Vec2>)
    ensures
        r@ == positions(bs@),
{
    let mut r: Vec<Vec2> = Vec::new();
    let mut i: usize = 0;
    while i < bs.len()
        invariant
            i <= bs@.len(),
            r@ =~= positions(bs@.take(i as int)),
        decreases bs@.len() - i,
    {
        r.push(bs[i].pos);
        i = i + 1;
        assert(positions(bs@.take(i as int)) =~= positions(bs@.take(i - 1)).push(bs@[i - 1].pos));
    }
    assert(bs@.take(bs@.len() as int) =~= bs@);
    r
}

} // verus!
