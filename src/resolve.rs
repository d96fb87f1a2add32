//! Resolution of one tick's encounters: food eaten by prey, prey caught by
//! predators, and the commit of everything marked.
use vstd::prelude::*;
use crate::dna::TRAIT_MAX;
use crate::fixed::{ENERGY_CAP, clamp};
use crate::geom::{Vec2, dist2};
use crate::motion::{WORLD_CAP, distance2, in_world};
use crate::predator::Predator;
use crate::prey::{Bacterium, energy_after};

verus! {

/// Energy a prey gains per food item (30.0).
pub const FOOD_REWARD: i64 = 30_000;
/// Energy a predator gains per prey caught (80.0).
pub const PREY_REWARD: i64 = 80_000;
/// Margin beyond its size within which a prey reaches food (2.0).
pub const EAT_MARGIN: i64 = 2000;

/// The prey `b` is close enough to eat food at `f`.
pub open spec fn reaches_food(b: Bacterium, f: Vec2) -> bool {
    dist2(b.pos, f) < (b.dna.size + EAT_MARGIN) * (b.dna.size + EAT_MARGIN)
}

/// The prey `b` is within the lethal radius of the predator `p`.
pub open spec fn lethal(p: Predator, b: Bacterium) -> bool {
    dist2(p.pos, b.pos) < (p.size + b.dna.size) * (p.size + b.dna.size)
}

/// Some predator of `ps` has `b` within its lethal radius.
pub open spec fn caught(b: Bacterium, ps: Seq<Predator>) -> bool {
    exists|j: int| 0 <= j < ps.len() && lethal(#[trigger] ps[j], b)
}

/// How many of the first `n` marks are set in `after` but not in `before`.
pub open spec fn count_new(before: Seq<bool>, after: Seq<bool>, n: int) -> nat
    decreases n,
{
    if n <= 0 {
        0
    } else {
        count_new(before, after, n - 1) + if !before[n - 1] && after[n - 1] {
            1nat
        } else {
            0nat
        }
    }
}

/// The items of `s` whose mark in `m` is not set, among the first `n`, in order.
pub open spec fn unmarked<T>(s: Seq<T>, m: Seq<bool>, n: int) -> Seq<T>
    decreases n,
{
    if n <= 0 {
        Seq::empty()
    } else if m[n - 1] {
        unmarked(s, m, n - 1)
    } else {
        unmarked(s, m, n - 1).push(s[n - 1])
    }
}

/// The prey of `s` that still have energy, in order.
pub open spec fn alive_prey(s: Seq<Bacterium>) -> Seq<Bacterium> {
    s.filter(|b: Bacterium| b.energy > 0)
}

/// The predators of `s` that still have energy, in order.
pub open spec fn alive_predators(s: Seq<Predator>) -> Seq<Predator> {
    s.filter(|p: Predator| p.energy > 0)
}

pub proof fn lemma_alive_prey_len(s: Seq<Bacterium>)
    ensures
        alive_prey(s).len() <= s.len(),
{
    s.lemma_filter_len(|b: Bacterium| b.energy > 0);
}

pub proof fn lemma_alive_predators_len(s: Seq<Predator>)
    ensures
        alive_predators(s).len() <= s.len(),
{
    s.lemma_filter_len(|p: Predator| p.energy > 0);
}

/// Marks only grow from `before` to `after`.
pub open spec fn marks_grow(before: Seq<bool>, after: Seq<bool>) -> bool {
    before.len() == after.len() && forall|i: int| 0 <= i < before.len() && #[trigger] before[i] ==> after[i]
}

proof fn lemma_count_new_prefix(before: Seq<bool>, a1: Seq<bool>, a2: Seq<bool>, n: int)
    requires
        forall|i: int| 0 <= i < n ==> #[trigger] a1[i] == a2[i],
    ensures
        count_new(before, a1, n) == count_new(before, a2, n),
    decreases n,
{
    if n > 0 {
        lemma_count_new_prefix(before, a1, a2, n - 1);
    }
}

proof fn lemma_count_new_bounded(before: Seq<bool>, after: Seq<bool>, n: int)
    requires
        n >= 0,
    ensures
        count_new(before, after, n) <= n,
    decreases n,
{
    if n > 0 {
        lemma_count_new_bounded(before, after, n - 1);
    }
}

/// Gains in energy saturate the same whether added one at a time or at once.
proof fn lemma_energy_gain_steps(e: int, a: int, b: int)
    requires
        -ENERGY_CAP <= e <= ENERGY_CAP,
        a >= 0,
        b >= 0,
    ensures
        energy_after(energy_after(e, a) as int, b) == energy_after(e, a + b),
{
}

/// Credits to two eaters that share the marks add up to the items newly
/// marked over both: an item marked by the first is not credited again.
pub proof fn lemma_first_touch(m0: Seq<bool>, m1: Seq<bool>, m2: Seq<bool>, n: int)
    requires
        marks_grow(m0, m1),
        marks_grow(m1, m2),
        0 <= n <= m0.len(),
    ensures
        count_new(m0, m1, n) + count_new(m1, m2, n) == count_new(m0, m2, n),
    decreases n,
{
    if n > 0 {
        lemma_first_touch(m0, m1, m2, n - 1);
    }
}

/// What a commit keeps of a marked sequence comes only from unmarked
/// indices: a prey marked as caught, or a food item marked as eaten, is gone.
pub proof fn lemma_marked_removed<T>(s: Seq<T>, m: Seq<bool>, n: int)
    requires
        0 <= n <= s.len(),
        n <= m.len(),
    ensures
        forall|k: int|
            0 <= k < unmarked(s, m, n).len() ==> exists|j: int|
                0 <= j < n && !m[j] && #[trigger] unmarked(s, m, n)[k] == #[trigger] s[j],
    decreases n,
{
    if n > 0 {
        lemma_marked_removed(s, m, n - 1);
        let prev = unmarked(s, m, n - 1);
        assert forall|k: int| 0 <= k < unmarked(s, m, n).len() implies exists|j: int|
            0 <= j < n && !m[j] && #[trigger] unmarked(s, m, n)[k] == #[trigger] s[j] by {
            if k < prev.len() {
                assert(unmarked(s, m, n)[k] == prev[k]);
                let j = choose|j: int| 0 <= j < n - 1 && !m[j] && #[trigger] prev[k] == #[trigger] s[j];
                assert(0 <= j < n && !m[j] && unmarked(s, m, n)[k] == s[j]);
            } else {
                assert(unmarked(s, m, n)[k] == s[n - 1]);
            }
        }
    }
}

/// The prey `b` eats every food item within reach that is not marked yet:
/// each such item gets marked, and `b` gains `FOOD_REWARD` for each.
pub fn eat_food(b: &mut Bacterium, food: &Vec<Vec2>, eaten: &mut Vec<bool>)
    requires
        old(eaten)@.len() == food@.len(),
        in_world(old(b).pos, WORLD_CAP as int, WORLD_CAP as int),
        0 <= old(b).dna.size <= TRAIT_MAX,
        -ENERGY_CAP <= old(b).energy <= ENERGY_CAP,
        forall|j: int| 0 <= j < food@.len() ==> #[trigger] in_world(food@[j], WORLD_CAP as int, WORLD_CAP as int),
    ensures
        marks_grow(old(eaten)@, final(eaten)@),
        forall|i: int|
            0 <= i < food@.len() ==> #[trigger] final(eaten)@[i] == (old(eaten)@[i] || reaches_food(*old(b), food@[i])),
        *final(b) == (Bacterium {
            energy: energy_after(
                old(b).energy as int,
                FOOD_REWARD * count_new(old(eaten)@, final(eaten)@, food@.len() as int),
            ),
            ..*old(b)
        }),
{
    let ghost b0 = *b;
    let ghost e0 = eaten@;
    let size = b.dna.size;
    let reach = size + EAT_MARGIN;
    assert(0 <= reach * reach <= 102_000 * 102_000) by (nonlinear_arith)
        requires
            0 <= reach <= 102_000,
    ;
    let mut i: usize = 0;
    while i < food.len()
        invariant
            i <= food@.len(),
            eaten@.len() == food@.len(),
            e0.len() == food@.len(),
            reach == b0.dna.size + EAT_MARGIN,
            0 <= reach * reach <= 102_000 * 102_000,
            in_world(b0.pos, WORLD_CAP as int, WORLD_CAP as int),
            -ENERGY_CAP <= b0.energy <= ENERGY_CAP,
            forall|j: int| 0 <= j < food@.len() ==> #[trigger] in_world(food@[j], WORLD_CAP as int, WORLD_CAP as int),
            forall|j: int| 0 <= j < i ==> #[trigger] eaten@[j] == (e0[j] || reaches_food(b0, food@[j])),
            forall|j: int| i <= j < food@.len() ==> #[trigger] eaten@[j] == e0[j],
            *b == (Bacterium { energy: energy_after(b0.energy as int, FOOD_REWARD * count_new(e0, eaten@, i as int)), ..b0 }),
        decreases food@.len() - i,
    {
        let ghost before = eaten@;
        if !eaten[i] {
            assert(in_world(food@[i as int], WORLD_CAP as int, WORLD_CAP as int));
            let d = distance2(b.pos, food[i]);
            if d < reach * reach {
                proof {
                    lemma_count_new_bounded(e0, before, i as int);
                    lemma_energy_gain_steps(b0.energy as int, FOOD_REWARD * count_new(e0, before, i as int), FOOD_REWARD as int);
                }
                b.energy = clamp(b.energy + FOOD_REWARD, -ENERGY_CAP, ENERGY_CAP);
                eaten.set(i, true);
            }
        }
        proof {
            lemma_count_new_prefix(e0, before, eaten@, i as int);
        }
        i = i + 1;
    }
}

/// The predator `p` catches every prey of `prey` within its lethal radius
/// that is not marked yet: each such prey gets marked, and `p` gains
/// `PREY_REWARD` for each.
pub fn hunt(p: &mut Predator, prey: &Vec<Bacterium>, eaten: &mut Vec<bool>)
    requires
        old(eaten)@.len() == prey@.len(),
        in_world(old(p).pos, WORLD_CAP as int, WORLD_CAP as int),
        0 <= old(p).size <= TRAIT_MAX,
        -ENERGY_CAP <= old(p).energy <= ENERGY_CAP,
        forall|j: int|
            0 <= j < prey@.len() ==> in_world(#[trigger] prey@[j].pos, WORLD_CAP as int, WORLD_CAP as int)
                && 0 <= prey@[j].dna.size <= TRAIT_MAX,
    ensures
        marks_grow(old(eaten)@, final(eaten)@),
        forall|i: int|
            0 <= i < prey@.len() ==> #[trigger] final(eaten)@[i] == (old(eaten)@[i] || lethal(*old(p), prey@[i])),
        *final(p) == (Predator {
            energy: energy_after(
                old(p).energy as int,
                PREY_REWARD * count_new(old(eaten)@, final(eaten)@, prey@.len() as int),
            ),
            ..*old(p)
        }),
{
    let ghost p_start = *p;
    let ghost e0 = eaten@;
    let mut i: usize = 0;
    while i < prey.len()
        invariant
            i <= prey@.len(),
            eaten@.len() == prey@.len(),
            e0.len() == prey@.len(),
            in_world(p_start.pos, WORLD_CAP as int, WORLD_CAP as int),
            0 <= p_start.size <= TRAIT_MAX,
            -ENERGY_CAP <= p_start.energy <= ENERGY_CAP,
            forall|j: int|
                0 <= j < prey@.len() ==> in_world(#[trigger] prey@[j].pos, WORLD_CAP as int, WORLD_CAP as int)
                    && 0 <= prey@[j].dna.size <= TRAIT_MAX,
            forall|j: int| 0 <= j < i ==> #[trigger] eaten@[j] == (e0[j] || lethal(p_start, prey@[j])),
            forall|j: int| i <= j < prey@.len() ==> #[trigger] eaten@[j] == e0[j],
            *p == (Predator { energy: energy_after(p_start.energy as int, PREY_REWARD * count_new(e0, eaten@, i as int)), ..p_start }),
        decreases prey@.len() - i,
    {
        let ghost before = eaten@;
        if !eaten[i] {
            let b = prey[i];
            assert(in_world(prey@[i as int].pos, WORLD_CAP as int, WORLD_CAP as int));
            let d = distance2(p.pos, b.pos);
            let r = p.size + b.dna.size;
            assert(0 <= r * r <= 200_000 * 200_000) by (nonlinear_arith)
                requires
                    0 <= r <= 200_000,
            ;
            if d < r * r {
                proof {
                    lemma_count_new_bounded(e0, before, i as int);
                    lemma_energy_gain_steps(p_start.energy as int, PREY_REWARD * count_new(e0, before, i as int), PREY_REWARD as int);
                }
                p.energy = clamp(p.energy + PREY_REWARD, -ENERGY_CAP, ENERGY_CAP);
                eaten.set(i, true);
            }
        }
        proof {
            lemma_count_new_prefix(e0, before, eaten@, i as int);
        }
        i = i + 1;
    }
}

/// Whether some predator of `ps` has the prey `b` within its lethal radius.
pub fn caught_by(b: &Bacterium, ps: &Vec<Predator>) -> (r: bool)
    requires
        in_world(b.pos, WORLD_CAP as int, WORLD_CAP as int),
        0 <= b.dna.size <= TRAIT_MAX,
        forall|j: int|
            0 <= j < ps@.len() ==> in_world(#[trigger] ps@[j].pos, WORLD_CAP as int, WORLD_CAP as int)
                && 0 <= ps@[j].size <= TRAIT_MAX,
    ensures
        r == caught(*b, ps@),
{
    let mut i: usize = 0;
    while i < ps.len()
        invariant
            i <= ps@.len(),
            in_world(b.pos, WORLD_CAP as int, WORLD_CAP as int),
            0 <= b.dna.size <= TRAIT_MAX,
            forall|j: int|
                0 <= j < ps@.len() ==> in_world(#[trigger] ps@[j].pos, WORLD_CAP as int, WORLD_CAP as int)
                    && 0 <= ps@[j].size <= TRAIT_MAX,
            forall|j: int| 0 <= j < i ==> !lethal(#[trigger] ps@[j], *b),
        decreases ps@.len() - i,
    {
        let p = ps[i];
        assert(in_world(ps@[i as int].pos, WORLD_CAP as int, WORLD_CAP as int));
        let d = distance2(p.pos, b.pos);
        let r = p.size + b.dna.size;
        assert(0 <= r * r <= 200_000 * 200_000) by (nonlinear_arith)
            requires
                0 <= r <= 200_000,
        ;
        if d < r * r {
            assert(lethal(ps@[i as int], *b));
            return true;
        }
        i = i + 1;
    }
    false
}

/// The items of `v` whose mark is not set, in order.
pub fn keep_unmarked<T: Copy>(v: &Vec<T>, marks: &Vec<bool>) -> (r: Vec<T>)
    requires
        marks@.len() == v@.len(),
    ensures
        r@ == unmarked(v@, marks@, v@.len() as int),
{
    let mut r: Vec<T> = Vec::new();
    let mut i: usize = 0;
    while i < v.len()
        invariant
            i <= v@.len(),
            marks@.len() == v@.len(),
            r@ == unmarked(v@, marks@, i as int),
        decreases v@.len() - i,
    {
        if !marks[i] {
            r.push(v[i]);
        }
        i = i + 1;
    }
    r
}

/// The prey of `v` with positive energy, in order.
pub fn living_prey(v: &Vec<Bacterium>) -> (r: Vec<Bacterium>)
    ensures
        r@ == alive_prey(v@),
{
    let mut r: Vec<Bacterium> = Vec::new();
    let mut i: usize = 0;
    while i < v.len()
        invariant
            i <= v@.len(),
            r@ == alive_prey(v@.take(i as int)),
        decreases v@.len() - i,
    {
        assert(v@.take(i + 1).drop_last() =~= v@.take(i as int));
        if v[i].energy > 0 {
            r.push(v[i]);
        }
        assert(alive_prey(v@.take(i + 1)) == alive_prey(v@.take(i as int)) + if v@[i as int].energy > 0 {
            seq![v@[i as int]]
        } else {
            Seq::empty()
        }) by {
            assert(v@.take(i + 1) =~= v@.take(i as int) + seq![v@[i as int]]);
            Seq::filter_distributes_over_add(v@.take(i as int), seq![v@[i as int]], |b: Bacterium| b.energy > 0);
            reveal_with_fuel(Seq::filter, 2);
        }
        i = i + 1;
    }
    assert(v@.take(v@.len() as int) =~= v@);
    r
}

/// The predators of `v` with positive energy, in order.
pub fn living_predators(v: &Vec<Predator>) -> (r: Vec<Predator>)
    ensures
        r@ == alive_predators(v@),
{
    let mut r: Vec<Predator> = Vec::new();
    let mut i: usize = 0;
    while i < v.len()
        invariant
            i <= v@.len(),
            r@ == alive_predators(v@.take(i as int)),
        decreases v@.len() - i,
    {
        assert(v@.take(i + 1).drop_last() =~= v@.take(i as int));
        if v[i].energy > 0 {
            r.push(v[i]);
        }
        assert(alive_predators(v@.take(i + 1)) == alive_predators(v@.take(i as int)) + if v@[i as int].energy > 0 {
            seq![v@[i as int]]
        } else {
            Seq::empty()
        }) by {
            assert(v@.take(i + 1) =~= v@.take(i as int) + seq![v@[i as int]]);
            Seq::filter_distributes_over_add(v@.take(i as int), seq![v@[i as int]], |p: Predator| p.energy > 0);
            reveal_with_fuel(Seq::filter, 2);
        }
        i = i + 1;
    }
    assert(v@.take(v@.len() as int) =~= v@);
    r
}

} // verus!
