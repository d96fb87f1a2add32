//! Prey agents: movement, fleeing, foraging, metabolism and reproduction.
use vstd::prelude::*;
use crate::dna::{Dna, TRAIT_MAX};
use crate::fixed::{ENERGY_CAP, SCALE, VEC_CAP, clamp, clamp_spec, div_trunc, div_toward_zero};
use crate::geom::{Vec2, bounded, dist2, is_heading, normalize, unit_spec};
use crate::motion::{
    MULT_CAP, WORLD_CAP, advance, advanced, blend, blended, direction, distance2,
    in_world, nearest_scan, nearest_within, rotate, rotated, toward, vec_of, world_ok,
};
use crate::predator::{Predator, random_heading, random_heading_of};
use crate::rng::SimRng;

verus! {

/// Squared radius (80.0) within which a predator is a threat.
pub const DANGER2: i64 = 6_400_000_000;
/// Squared distance (0.1) below which a predator is too close to give a direction.
pub const FLEE_MIN2: i64 = 10_000;
/// Squared length (0.1) that the flee vector must exceed to take over.
pub const FLEE_THRESHOLD2: i64 = 10_000;
/// Weight (0.5) of the flee direction in the new heading.
pub const FLEE_WEIGHT: i64 = 500;
/// Weight (0.2) of the direction toward food in the new heading.
pub const FOOD_WEIGHT: i64 = 200;
/// Bound of a prey's heading jitter (0.2 rad).
pub const PREY_JITTER: i64 = 200;
/// Scale of a flee contribution: a unit vector divided by the distance.
pub const FLEE_GAIN: i64 = 1_000_000;

/// A prey agent.
#[derive(Clone, Copy, Debug, PartialEq, Eq, Structural)]
pub struct Bacterium {
    pub pos: Vec2,
    pub vel: Vec2,
    pub dna: Dna,
    pub energy: i64,
    pub age: u64,
}

/// The predator at `q` threatens a prey at `pos`: it is within the danger
/// radius and not so close that no direction away from it exists.
pub open spec fn threatens(pos: Vec2, q: Vec2) -> bool {
    FLEE_MIN2 < dist2(pos, q) < DANGER2
}

/// The contribution of a predator at offset `d` (one axis) and squared
/// distance `d2`: the unit vector away from it divided by the distance.
pub open spec fn flee_term(d: int, d2: int) -> int {
    div_trunc(d * FLEE_GAIN, d2)
}

/// The accumulated flee vector over the predators `ps`, each component kept
/// within `VEC_CAP`.
pub open spec fn flee_sum(pos: Vec2, ps: Seq<Predator>) -> Vec2
    decreases ps.len(),
{
    if ps.len() == 0 {
        Vec2 { x: 0, y: 0 }
    } else {
        let prev = flee_sum(pos, ps.drop_last());
        let q = ps.last().pos;
        if threatens(pos, q) {
            let d2 = dist2(pos, q);
            Vec2 {
                x: clamp_spec(prev.x + flee_term(pos.x - q.x, d2), -VEC_CAP, VEC_CAP as int) as i64,
                y: clamp_spec(prev.y + flee_term(pos.y - q.y, d2), -VEC_CAP, VEC_CAP as int) as i64,
            }
        } else {
            prev
        }
    }
}

/// The new heading of a prey at `pos` that moves along `vel`: away from
/// threatening predators if the flee vector is long enough, else turned by
/// `jitter` and steered toward the nearest visible food.
pub open spec fn prey_heading(
    pos: Vec2,
    vel: Vec2,
    food: Seq<Vec2>,
    ps: Seq<Predator>,
    sense: int,
    jitter: int,
) -> Vec2 {
    let flee = flee_sum(pos, ps);
    if flee.x * flee.x + flee.y * flee.y > FLEE_THRESHOLD2 {
        blended(vel, vec_of(unit_spec(flee.x as int, flee.y as int)), FLEE_WEIGHT as int)
    } else {
        let turned = rotated(vel, jitter);
        match nearest_scan(pos, food, sense * sense) {
            Some(i) => blended(turned, toward(pos, food[i]), FOOD_WEIGHT as int),
            None => turned,
        }
    }
}

/// Energy spent in one tick: `(speed^2 * size * 0.005 + 0.1) * mult`.
pub open spec fn prey_cost(speed: int, size: int, mult: int) -> int {
    ((speed * speed * size * 5) / 1_000_000_000 + 100) * mult / (SCALE as int)
}

/// `e` changed by `delta`, saturating at `ENERGY_CAP` either way.
pub open spec fn energy_after(e: int, delta: int) -> i64 {
    clamp_spec(e + delta, -ENERGY_CAP, ENERGY_CAP as int) as i64
}

/// `age` plus one, saturating.
pub open spec fn older(age: u64) -> u64 {
    if age < u64::MAX {
        (age + 1) as u64
    } else {
        age
    }
}

impl Bacterium {
    /// Inside the world, with a unit heading, a valid genome and energy
    /// within `ENERGY_CAP`.
    pub open spec fn wf(self, w: int, h: int) -> bool {
        &&& in_world(self.pos, w, h)
        &&& is_heading(self.vel)
        &&& self.dna.wf()
        &&& -ENERGY_CAP <= self.energy <= ENERGY_CAP
    }

    /// The prey after one update with heading jitter `jitter`.
    pub open spec fn stepped(
        self,
        w: int,
        h: int,
        food: Seq<Vec2>,
        mult: int,
        ps: Seq<Predator>,
        jitter: int,
    ) -> Bacterium {
        let (pos, vel) = advanced(self.pos, self.vel, self.dna.speed as int, mult, w, h);
        Bacterium {
            pos,
            vel: prey_heading(pos, vel, food, ps, self.dna.sense_radius as int, jitter),
            dna: self.dna,
            energy: energy_after(
                self.energy as int,
                -prey_cost(self.dna.speed as int, self.dna.size as int, mult),
            ),
            age: older(self.age),
        }
    }

    /// The offspring that a parent of energy `energy` leaves with genome
    /// `dna`: same place, reversed heading, half the energy, age zero.
    pub open spec fn child(self, dna: Dna) -> Bacterium {
        Bacterium {
            pos: self.pos,
            vel: Vec2 { x: -self.vel.x as i64, y: -self.vel.y as i64 },
            dna,
            energy: (self.energy / 2) as i64,
            age: 0,
        }
    }

    /// A fresh prey at `pos` with a random genome and heading.
    pub fn new(pos: Vec2, initial_energy: i64, rng: &mut SimRng) -> (r: Bacterium)
        ensures
            r.pos == pos,
            r.energy == initial_energy,
            r.age == 0,
            r.dna.wf(),
            r.dna.is_fresh(),
            is_heading(r.vel),
            random_heading_of(r.vel),
    {
        let vel = random_heading(rng);
        let dna = Dna::random(rng);
        Bacterium { pos, vel, dna, energy: initial_energy, age: 0 }
    }

    /// One update with a given heading jitter (milliradians): move and
    /// bounce, flee or forage, pay the metabolic cost, grow one tick older.
    pub fn steer(
        &mut self,
        w: i64,
        h: i64,
        food: &Vec<Vec2>,
        mult: i64,
        predators: &Vec<Predator>,
        jitter: i64,
    )
        requires
            world_ok(w as int, h as int),
            old(self).wf(w as int, h as int),
            0 <= mult <= MULT_CAP,
            -PREY_JITTER <= jitter <= PREY_JITTER,
            forall|j: int| 0 <= j < food@.len() ==> #[trigger] in_world(food@[j], w as int, h as int),
            forall|j: int| 0 <= j < predators@.len() ==> #[trigger] predators@[j].wf(w as int, h as int),
        ensures
            *final(self) == old(self).stepped(w as int, h as int, food@, mult as int, predators@, jitter as int),
            final(self).wf(w as int, h as int),
    {
        let moved = advance(self.pos, self.vel, self.dna.speed, mult, w, h);
        let pos = moved.0;
        let mut vel = moved.1;
        let flee = flee_vector(pos, predators, w, h);
        assert(0 <= flee.x * flee.x <= (VEC_CAP as int) * (VEC_CAP as int) && 0 <= flee.y * flee.y <= (
        VEC_CAP as int) * (VEC_CAP as int)) by (nonlinear_arith)
            requires
                -VEC_CAP <= flee.x <= VEC_CAP,
                -VEC_CAP <= flee.y <= VEC_CAP,
        ;
        if flee.x * flee.x + flee.y * flee.y > FLEE_THRESHOLD2 {
            let away = normalize(flee.x, flee.y);
            vel = blend(vel, away, FLEE_WEIGHT);
        } else {
            vel = rotate(vel, jitter);
            assert forall|j: int| 0 <= j < food@.len() implies #[trigger] in_world(food@[j], WORLD_CAP as int, WORLD_CAP as int) by {
                assert(in_world(food@[j], w as int, h as int));
            }
            let sense = self.dna.sense_radius;
            assert(0 <= sense * sense <= (TRAIT_MAX as int) * (TRAIT_MAX as int)) by (nonlinear_arith)
                requires
                    0 <= sense <= TRAIT_MAX,
            ;
            match nearest_within(pos, food, sense * sense) {
                Some(i) => {
                    assert(in_world(food@[i as int], w as int, h as int));
                    let dir = direction(pos, food[i]);
                    vel = blend(vel, dir, FOOD_WEIGHT);
                },
                None => {},
            }
        }
        let cost = metabolic_cost(self.dna.speed, self.dna.size, mult);
        self.pos = pos;
        self.vel = vel;
        self.energy = clamp(self.energy - cost, -ENERGY_CAP, ENERGY_CAP);
        self.age = if self.age < u64::MAX { self.age + 1 } else { self.age };
    }

    /// One update, drawing the heading jitter from `rng`.
    pub fn update(
        &mut self,
        w: i64,
        h: i64,
        food: &Vec<Vec2>,
        mult: i64,
        predators: &Vec<Predator>,
        rng: &mut SimRng,
    )
        requires
            world_ok(w as int, h as int),
            old(self).wf(w as int, h as int),
            0 <= mult <= MULT_CAP,
            forall|j: int| 0 <= j < food@.len() ==> #[trigger] in_world(food@[j], w as int, h as int),
            forall|j: int| 0 <= j < predators@.len() ==> #[trigger] predators@[j].wf(w as int, h as int),
        ensures
            exists|jitter: int|
                -PREY_JITTER <= jitter < PREY_JITTER && *final(self) == #[trigger] old(self).stepped(
                    w as int,
                    h as int,
                    food@,
                    mult as int,
                    predators@,
                    jitter,
                ),
            final(self).wf(w as int, h as int),
    {
        let jitter = rng.range(-PREY_JITTER, PREY_JITTER - 1);
        self.steer(w, h, food, mult, predators, jitter);
    }

    /// Splits off an offspring with genome `dna`: the parent keeps half its
    /// energy and the offspring gets the same half.
    pub fn split_off(&mut self, dna: Dna) -> (child: Bacterium)
        requires
            old(self).energy > 0,
            is_heading(old(self).vel),
        ensures
            child == old(self).child(dna),
            *final(self) == (Bacterium { energy: (old(self).energy / 2) as i64, ..*old(self) }),
    {
        let half = self.energy / 2;
        self.energy = half;
        Bacterium { pos: self.pos, vel: Vec2 { x: -self.vel.x, y: -self.vel.y }, dna, energy: half, age: 0 }
    }
}

/// The flee vector of a prey at `pos`.
pub fn flee_vector(pos: Vec2, predators: &Vec<Predator>, w: i64, h: i64) -> (r: Vec2)
    requires
        world_ok(w as int, h as int),
        in_world(pos, w as int, h as int),
        forall|j: int| 0 <= j < predators@.len() ==> #[trigger] predators@[j].wf(w as int, h as int),
    ensures
        r == flee_sum(pos, predators@),
        bounded(r, VEC_CAP as int),
{
    let mut acc = Vec2 { x: 0, y: 0 };
    let mut i: usize = 0;
    while i < predators.len()
        invariant
            i <= predators@.len(),
            world_ok(w as int, h as int),
            in_world(pos, w as int, h as int),
            forall|j: int| 0 <= j < predators@.len() ==> #[trigger] predators@[j].wf(w as int, h as int),
            acc == flee_sum(pos, predators@.take(i as int)),
            bounded(acc, VEC_CAP as int),
        decreases predators@.len() - i,
    {
        assert(predators@.take(i + 1).drop_last() =~= predators@.take(i as int));
        assert(predators@[i as int].wf(w as int, h as int));
        let q = predators[i].pos;
        let d2 = distance2(pos, q);
        if FLEE_MIN2 < d2 && d2 < DANGER2 {
            let tx = div_toward_zero((pos.x - q.x) * FLEE_GAIN, d2);
            let ty = div_toward_zero((pos.y - q.y) * FLEE_GAIN, d2);
            assert(-1_000_000_000_000_000int <= tx <= 1_000_000_000_000_000int) by {
                vstd::arithmetic::div_mod::lemma_div_is_ordered_by_denominator(
                    if pos.x >= q.x { (pos.x - q.x) * FLEE_GAIN } else { (q.x - pos.x) * FLEE_GAIN },
                    1,
                    d2 as int,
                );
            }
            assert(-1_000_000_000_000_000int <= ty <= 1_000_000_000_000_000int) by {
                vstd::arithmetic::div_mod::lemma_div_is_ordered_by_denominator(
                    if pos.y >= q.y { (pos.y - q.y) * FLEE_GAIN } else { (q.y - pos.y) * FLEE_GAIN },
                    1,
                    d2 as int,
                );
            }
            acc = Vec2 { x: clamp(acc.x + tx, -VEC_CAP, VEC_CAP), y: clamp(acc.y + ty, -VEC_CAP, VEC_CAP) };
        }
        i = i + 1;
    }
    assert(predators@.take(predators@.len() as int) =~= predators@);
    acc
}

/// The metabolic cost of one tick for a prey of the given speed and size.
pub fn metabolic_cost(speed: i64, size: i64, mult: i64) -> (r: i64)
    requires
        0 <= speed <= TRAIT_MAX,
        0 <= size <= TRAIT_MAX,
        0 <= mult <= MULT_CAP,
    ensures
        r == prey_cost(speed as int, size as int, mult as int),
        0 <= r <= 1_000_000_000,
{
    assert(0 <= speed * speed * size * 5 <= 5 * (TRAIT_MAX as int) * (TRAIT_MAX as int) * (TRAIT_MAX as int))
        by (nonlinear_arith)
        requires
            0 <= speed <= TRAIT_MAX,
            0 <= size <= TRAIT_MAX,
    ;
    assert(0 <= speed * speed <= (TRAIT_MAX as int) * (TRAIT_MAX as int)) by (nonlinear_arith)
        requires
            0 <= speed <= TRAIT_MAX,
    ;
    assert(0 <= speed * speed * size <= (TRAIT_MAX as int) * (TRAIT_MAX as int) * (TRAIT_MAX as int)) by (nonlinear_arith)
        requires
            0 <= speed <= TRAIT_MAX,
            0 <= size <= TRAIT_MAX,
    ;
    let base = (speed * speed * size * 5) / 1_000_000_000 + 100;
    assert(base <= 5_000_100) by {
        vstd::arithmetic::div_mod::lemma_div_is_ordered(
            speed * speed * size * 5,
            5 * (TRAIT_MAX as int) * (TRAIT_MAX as int) * (TRAIT_MAX as int),
            1_000_000_000,
        );
    }
    assert(0 <= base * mult <= 5_000_100 * MULT_CAP) by (nonlinear_arith)
        requires
            0 <= base <= 5_000_100,
            0 <= mult <= MULT_CAP,
    ;
    let r = base * mult / SCALE;
    assert(r <= 1_000_000_000) by {
        vstd::arithmetic::div_mod::lemma_div_is_ordered(base * mult, 5_000_100 * MULT_CAP, SCALE as int);
    }
    r
}

} // verus!
