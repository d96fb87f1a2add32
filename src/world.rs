//! The world and its tick: food growth, the prey pass, the predator pass, the
//! commit of everything eaten, born or dead, and the extinction failsafe.
use vstd::prelude::*;
use crate::dna::{Dna, TRAIT_MAX, no_mutation, possible_child};
use crate::geom::Vec2;
use crate::motion::{WORLD_CAP, in_world, world_ok};
use crate::params::SimulationParams;
use crate::predator::{PREDATOR_ENERGY, PREDATOR_JITTER, PREDATOR_SENSE, PREDATOR_SIZE, PREDATOR_SPEED, Predator, positions, prey_positions};
use crate::prey::{Bacterium, PREY_JITTER, energy_after};
use crate::resolve::{
    FOOD_REWARD, PREY_REWARD, alive_predators, lethal, alive_prey, caught, caught_by, count_new, eat_food, hunt,
    keep_unmarked, lemma_first_touch, living_predators, living_prey, marks_grow, reaches_food, unmarked,
};
use crate::rng::SimRng;
use crate::stats::{MAX_HISTORY, Stats, mean, rolled, total_size, total_speed};

verus! {

/// Number of prey that the failsafe seeds after an extinction.
pub const RESEED_COUNT: usize = 10;
/// Number of prey in a new world.
pub const INITIAL_PREY: usize = 50;
/// Number of food items in a new world.
pub const INITIAL_FOOD: usize = 200;

/// The whole simulation state.
#[derive(Debug)]
pub struct World {
    pub width: i64,
    pub height: i64,
    pub prey: Vec<Bacterium>,
    pub predators: Vec<Predator>,
    pub food: Vec<Vec2>,
    pub stats: Stats,
}

pub open spec fn all_prey_wf(s: Seq<Bacterium>, w: int, h: int) -> bool {
    forall|j: int| 0 <= j < s.len() ==> #[trigger] s[j].wf(w, h)
}

pub open spec fn all_predators_wf(s: Seq<Predator>, w: int, h: int) -> bool {
    forall|j: int| 0 <= j < s.len() ==> #[trigger] s[j].wf(w, h)
}

pub open spec fn all_food_in(s: Seq<Vec2>, w: int, h: int) -> bool {
    forall|j: int| 0 <= j < s.len() ==> #[trigger] in_world(s[j], w, h)
}

/// Every mark of `m` is clear.
pub open spec fn no_marks_set(m: Seq<bool>) -> bool {
    forall|i: int| 0 <= i < m.len() ==> !#[trigger] m[i]
}

/// The prey `b` after eating: its energy raised by `FOOD_REWARD` for each of
/// `k` food items.
pub open spec fn fed(b: Bacterium, k: int) -> Bacterium {
    Bacterium { energy: energy_after(b.energy as int, FOOD_REWARD * k), ..b }
}

proof fn lemma_unmarked_all<T>(s: Seq<T>, m: Seq<bool>, n: int, prop: spec_fn(T) -> bool)
    requires
        0 <= n <= s.len(),
        forall|j: int| 0 <= j < n ==> prop(#[trigger] s[j]),
    ensures
        unmarked(s, m, n).len() <= n,
        forall|k: int| 0 <= k < unmarked(s, m, n).len() ==> prop(#[trigger] unmarked(s, m, n)[k]),
    decreases n,
{
    if n > 0 {
        lemma_unmarked_all(s, m, n - 1, prop);
        let prev = unmarked(s, m, n - 1);
        if !m[n - 1] {
            assert forall|k: int| 0 <= k < unmarked(s, m, n).len() implies prop(#[trigger] unmarked(s, m, n)[k]) by {
                if k < prev.len() {
                    assert(unmarked(s, m, n)[k] == prev[k]);
                } else {
                    assert(prop(s[n - 1]));
                }
            }
        }
    }
}

proof fn lemma_unmarked_len<T>(s: Seq<T>, m: Seq<bool>, n: int)
    requires
        0 <= n,
    ensures
        unmarked(s, m, n).len() <= n,
    decreases n,
{
    if n > 0 {
        lemma_unmarked_len(s, m, n - 1);
    }
}

proof fn lemma_unmarked_none<T>(s: Seq<T>, m: Seq<bool>, n: int)
    requires
        0 <= n <= s.len(),
        n <= m.len(),
        no_marks_set(m),
    ensures
        unmarked(s, m, n) == s.take(n),
    decreases n,
{
    if n > 0 {
        lemma_unmarked_none(s, m, n - 1);
        assert(s.take(n) =~= s.take(n - 1).push(s[n - 1]));
    } else {
        assert(s.take(0) =~= Seq::<T>::empty());
    }
}

proof fn lemma_filter_all<T>(s: Seq<T>, keep: spec_fn(T) -> bool, prop: spec_fn(T) -> bool)
    requires
        forall|j: int| 0 <= j < s.len() ==> prop(#[trigger] s[j]),
    ensures
        forall|k: int| 0 <= k < s.filter(keep).len() ==> prop(#[trigger] s.filter(keep)[k]),
    decreases s.len(),
{
    reveal(Seq::filter);
    if s.len() > 0 {
        let rest = s.drop_last();
        assert forall|j: int| 0 <= j < rest.len() implies prop(#[trigger] rest[j]) by {
            assert(rest[j] == s[j]);
        }
        lemma_filter_all(rest, keep, prop);
        let sub = rest.filter(keep);
        assert forall|k: int| 0 <= k < s.filter(keep).len() implies prop(#[trigger] s.filter(keep)[k]) by {
            if k < sub.len() {
                assert(s.filter(keep)[k] == sub[k]);
            } else {
                assert(prop(s[s.len() - 1]));
            }
        }
    }
}

/// `n` clear marks.
pub fn no_marks(n: usize) -> (r: Vec<bool>)
    ensures
        r@.len() == n,
        no_marks_set(r@),
        r@ == clear_marks(n as nat),
{
    let mut r: Vec<bool> = Vec::new();
    let mut i: usize = 0;
    while i < n
        invariant
            i <= n,
            r@.len() == i,
            no_marks_set(r@),
        decreases n - i,
    {
        r.push(false);
        i = i + 1;
    }
    assert(r@ =~= clear_marks(n as nat));
    r
}

/// A random point of `[0, w] x [0, h]`.
pub fn random_point(w: i64, h: i64, rng: &mut SimRng) -> (r: Vec2)
    requires
        world_ok(w as int, h as int),
    ensures
        in_world(r, w as int, h as int),
{
    let x = rng.range(0, w);
    let y = rng.range(0, h);
    Vec2 { x, y }
}

/// Food growth: below `max_food` items, `growth` new items at random points
/// are appended; at or above it nothing changes.
pub fn grow_food(food: &mut Vec<Vec2>, growth: usize, max_food: usize, w: i64, h: i64, rng: &mut SimRng)
    requires
        world_ok(w as int, h as int),
        all_food_in(old(food)@, w as int, h as int),
    ensures
        final(food)@.len() == old(food)@.len() + if old(food)@.len() < max_food {
            growth as int
        } else {
            0
        },
        final(food)@.take(old(food)@.len() as int) == old(food)@,
        all_food_in(final(food)@, w as int, h as int),
{
    let ghost f0 = food@;
    if food.len() < max_food {
        let mut k: usize = 0;
        while k < growth
            invariant
                k <= growth,
                world_ok(w as int, h as int),
                food@.len() == f0.len() + k,
                food@.take(f0.len() as int) == f0,
                all_food_in(food@, w as int, h as int),
            decreases growth - k,
        {
            let p = random_point(w, h, rng);
            let ghost before = food@;
            food.push(p);
            assert(food@.take(f0.len() as int) =~= before.take(f0.len() as int));
            k = k + 1;
        }
    } else {
        assert(food@.take(f0.len() as int) =~= f0);
    }
}

/// The rest of a prey's turn after it moved: it eats the unmarked food
/// within reach; then, if a predator has it within its lethal radius, it is
/// reported caught and does not reproduce; else, above the reproduction
/// threshold, it splits off a mutated offspring.
pub fn settle_prey(
    b: &mut Bacterium,
    food: &Vec<Vec2>,
    eaten_food: &mut Vec<bool>,
    predators: &Vec<Predator>,
    params: &SimulationParams,
    w: i64,
    h: i64,
    rng: &mut SimRng,
) -> (r: (bool, Option<Bacterium>))
    requires
        world_ok(w as int, h as int),
        params.wf(),
        old(b).wf(w as int, h as int),
        old(eaten_food)@.len() == food@.len(),
        all_food_in(food@, w as int, h as int),
        all_predators_wf(predators@, w as int, h as int),
    ensures
        marks_grow(old(eaten_food)@, final(eaten_food)@),
        forall|i: int|
            0 <= i < food@.len() ==> #[trigger] final(eaten_food)@[i] == (old(eaten_food)@[i] || reaches_food(
                *old(b),
                food@[i],
            )),
        ({
            let f = fed(*old(b), count_new(old(eaten_food)@, final(eaten_food)@, food@.len() as int) as int);
            &&& r.0 == caught(f, predators@)
            &&& r.0 ==> r.1 is None && *final(b) == f
            &&& !r.0 && f.energy > params.reproduction_threshold ==> (r.1 matches Some(c) && c == f.child(c.dna)
                && c.dna.wf() && *final(b) == (Bacterium { energy: (f.energy / 2) as i64, ..f }))
            &&& !r.0 && f.energy <= params.reproduction_threshold ==> r.1 is None && *final(b) == f
        }),
        final(b).wf(w as int, h as int),
        r.1 matches Some(c) ==> c.wf(w as int, h as int) && possible_child(
            old(b).dna,
            c.dna,
            params.mutation_rate as int,
            params.mutation_strength as int,
        ),
{
    assert forall|j: int| 0 <= j < food@.len() implies #[trigger] in_world(food@[j], WORLD_CAP as int, WORLD_CAP as int) by {
        assert(in_world(food@[j], w as int, h as int));
    }
    assert forall|j: int| 0 <= j < predators@.len() implies in_world(#[trigger] predators@[j].pos, WORLD_CAP as int, WORLD_CAP as int)
        && 0 <= predators@[j].size <= TRAIT_MAX by {
        assert(predators@[j].wf(w as int, h as int));
    }
    eat_food(b, food, eaten_food);
    let is_caught = caught_by(b, predators);
    if is_caught {
        (true, None)
    } else if b.energy > params.reproduction_threshold {
        let dna = b.dna.mutate(params.mutation_rate, params.mutation_strength, rng);
        let child = b.split_off(dna);
        (false, Some(child))
    } else {
        (false, None)
    }
}

/// `n` clear marks.
pub open spec fn clear_marks(n: nat) -> Seq<bool> {
    Seq::new(n, |i: int| false)
}

/// The food marks `m` after the prey `b` has eaten: also every item in its reach.
pub open spec fn food_marks_after(m: Seq<bool>, food: Seq<Vec2>, b: Bacterium) -> Seq<bool> {
    Seq::new(m.len(), |i: int| m[i] || reaches_food(b, food[i]))
}

/// The prey marks `m` after the predator `p` has hunted: also every prey in
/// its lethal radius.
pub open spec fn prey_marks_after(m: Seq<bool>, prey: Seq<Bacterium>, p: Predator) -> Seq<bool> {
    Seq::new(m.len(), |i: int| m[i] || lethal(p, prey[i]))
}

/// The draws of a prey pass over `prey0`: a jitter in `[-0.2, 0.2)` per prey
/// and per prey a genome that one mutation of its own can give.
pub open spec fn prey_draws_ok(prey0: Seq<Bacterium>, params: SimulationParams, js: Seq<int>, gs: Seq<Dna>, n: int) -> bool {
    &&& js.len() == n
    &&& gs.len() == n
    &&& forall|i: int| 0 <= i < n ==> -PREY_JITTER <= #[trigger] js[i] < PREY_JITTER
    &&& forall|i: int|
        0 <= i < n ==> possible_child(
            prey0[i].dna,
            #[trigger] gs[i],
            params.mutation_rate as int,
            params.mutation_strength as int,
        )
}

/// The jitters of a predator pass: one in `[-0.15, 0.15)` per predator.
pub open spec fn predator_draws_ok(js: Seq<int>, n: int) -> bool {
    &&& js.len() == n
    &&& forall|i: int| 0 <= i < n ==> -PREDATOR_JITTER <= #[trigger] js[i] < PREDATOR_JITTER
}

/// The prey pass after its first `n` prey, with jitters `js` and offspring
/// genomes `gs`: the prey, the food marks, the caught marks and the offspring.
/// Prey `n - 1` moves, eats the unmarked food in reach (first touch wins),
/// and then is marked caught if a predator has it in its lethal radius, else
/// splits off an offspring if its energy exceeds the threshold.
pub open spec fn prey_pass_spec(
    prey0: Seq<Bacterium>,
    food: Seq<Vec2>,
    preds: Seq<Predator>,
    params: SimulationParams,
    w: int,
    h: int,
    js: Seq<int>,
    gs: Seq<Dna>,
    n: int,
) -> (Seq<Bacterium>, Seq<bool>, Seq<bool>, Seq<Bacterium>)
    decreases n,
{
    if n <= 0 {
        (prey0, clear_marks(food.len()), clear_marks(prey0.len()), Seq::empty())
    } else {
        let prev = prey_pass_spec(prey0, food, preds, params, w, h, js, gs, n - 1);
        let b = prev.0[n - 1].stepped(w, h, food, params.speed_multiplier as int, preds, js[n - 1]);
        let marks = food_marks_after(prev.1, food, b);
        let f = fed(b, count_new(prev.1, marks, food.len() as int) as int);
        if caught(f, preds) {
            (prev.0.update(n - 1, f), marks, prev.2.update(n - 1, true), prev.3)
        } else if f.energy > params.reproduction_threshold {
            (
                prev.0.update(n - 1, Bacterium { energy: (f.energy / 2) as i64, ..f }),
                marks,
                prev.2,
                prev.3.push(f.child(gs[n - 1])),
            )
        } else {
            (prev.0.update(n - 1, f), marks, prev.2, prev.3)
        }
    }
}

/// The predator pass after its first `n` predators, with jitters `js`: the
/// predators, the prey marks and the offspring. Predator `n - 1` moves toward
/// the prey positions, catches the unmarked prey in its lethal radius for
/// `PREY_REWARD` each, and splits off an offspring above the threshold.
pub open spec fn predator_pass_spec(
    preds0: Seq<Predator>,
    prey: Seq<Bacterium>,
    marks0: Seq<bool>,
    params: SimulationParams,
    w: int,
    h: int,
    js: Seq<int>,
    n: int,
) -> (Seq<Predator>, Seq<bool>, Seq<Predator>)
    decreases n,
{
    if n <= 0 {
        (preds0, marks0, Seq::empty())
    } else {
        let prev = predator_pass_spec(preds0, prey, marks0, params, w, h, js, n - 1);
        let p = prev.0[n - 1].stepped(w, h, positions(prey), params.speed_multiplier as int, js[n - 1]);
        let marks = prey_marks_after(prev.1, prey, p);
        let g = Predator {
            energy: energy_after(p.energy as int, PREY_REWARD * count_new(prev.1, marks, prey.len() as int)),
            ..p
        };
        if g.energy > params.predator_reproduction_threshold {
            (prev.0.update(n - 1, Predator { energy: (g.energy / 2) as i64, ..g }), marks, prev.2.push(g.child()))
        } else {
            (prev.0.update(n - 1, g), marks, prev.2)
        }
    }
}

proof fn lemma_prey_pass_prefix(
    prey0: Seq<Bacterium>,
    food: Seq<Vec2>,
    preds: Seq<Predator>,
    params: SimulationParams,
    w: int,
    h: int,
    js1: Seq<int>,
    gs1: Seq<Dna>,
    js2: Seq<int>,
    gs2: Seq<Dna>,
    n: int,
)
    requires
        n <= js1.len(),
        n <= js2.len(),
        n <= gs1.len(),
        n <= gs2.len(),
        forall|i: int| 0 <= i < n ==> js1[i] == js2[i] && gs1[i] == gs2[i],
    ensures
        prey_pass_spec(prey0, food, preds, params, w, h, js1, gs1, n) == prey_pass_spec(
            prey0,
            food,
            preds,
            params,
            w,
            h,
            js2,
            gs2,
            n,
        ),
    decreases n,
{
    if n > 0 {
        lemma_prey_pass_prefix(prey0, food, preds, params, w, h, js1, gs1, js2, gs2, n - 1);
    }
}

proof fn lemma_predator_pass_prefix(
    preds0: Seq<Predator>,
    prey: Seq<Bacterium>,
    marks0: Seq<bool>,
    params: SimulationParams,
    w: int,
    h: int,
    js1: Seq<int>,
    js2: Seq<int>,
    n: int,
)
    requires
        n <= js1.len(),
        n <= js2.len(),
        forall|i: int| 0 <= i < n ==> js1[i] == js2[i],
    ensures
        predator_pass_spec(preds0, prey, marks0, params, w, h, js1, n) == predator_pass_spec(
            preds0,
            prey,
            marks0,
            params,
            w,
            h,
            js2,
            n,
        ),
    decreases n,
{
    if n > 0 {
        lemma_predator_pass_prefix(preds0, prey, marks0, params, w, h, js1, js2, n - 1);
    }
}

/// The prey pass: each prey in turn moves, eats, is checked against the
/// predators and may reproduce. Returns the food marks, the marks of the prey
/// that were caught, and the offspring, as `prey_pass_spec` gives them for
/// the jitters and genomes that were drawn.
pub fn prey_pass(
    prey: &mut Vec<Bacterium>,
    food: &Vec<Vec2>,
    predators: &Vec<Predator>,
    params: &SimulationParams,
    w: i64,
    h: i64,
    rng: &mut SimRng,
) -> (r: (Vec<bool>, Vec<bool>, Vec<Bacterium>))
    requires
        world_ok(w as int, h as int),
        params.wf(),
        all_prey_wf(old(prey)@, w as int, h as int),
        all_food_in(food@, w as int, h as int),
        all_predators_wf(predators@, w as int, h as int),
    ensures
        exists|js: Seq<int>, gs: Seq<Dna>|
            prey_draws_ok(old(prey)@, *params, js, gs, old(prey)@.len() as int) && (
            final(prey)@,
            r.0@,
            r.1@,
            r.2@,
        ) == #[trigger] prey_pass_spec(
                old(prey)@,
                food@,
                predators@,
                *params,
                w as int,
                h as int,
                js,
                gs,
                old(prey)@.len() as int,
            ),
        final(prey)@.len() == old(prey)@.len(),
        all_prey_wf(final(prey)@, w as int, h as int),
        r.0@.len() == food@.len(),
        r.1@.len() == old(prey)@.len(),
        all_prey_wf(r.2@, w as int, h as int),
        r.2@.len() <= old(prey)@.len(),
{
    let ghost prey0 = prey@;
    let n = prey.len();
    let mut eaten_food = no_marks(food.len());
    let mut eaten_prey = no_marks(n);
    let mut births: Vec<Bacterium> = Vec::new();
    let ghost mut js: Seq<int> = Seq::empty();
    let ghost mut gs: Seq<Dna> = Seq::empty();
    let mut i: usize = 0;
    while i < n
        invariant
            n == prey@.len(),
            n == prey0.len(),
            i <= n,
            world_ok(w as int, h as int),
            params.wf(),
            all_prey_wf(prey@, w as int, h as int),
            all_food_in(food@, w as int, h as int),
            all_predators_wf(predators@, w as int, h as int),
            eaten_food@.len() == food@.len(),
            eaten_prey@.len() == n,
            forall|j: int| i <= j < n ==> #[trigger] prey@[j] == prey0[j],
            prey_draws_ok(prey0, *params, js, gs, i as int),
            (prey@, eaten_food@, eaten_prey@, births@) == prey_pass_spec(
                prey0,
                food@,
                predators@,
                *params,
                w as int,
                h as int,
                js,
                gs,
                i as int,
            ),
            all_prey_wf(births@, w as int, h as int),
            births@.len() <= i,
        decreases n - i,
    {
        let ghost spec_prev = prey_pass_spec(prey0, food@, predators@, *params, w as int, h as int, js, gs, i as int);
        let ghost marks_before = eaten_food@;
        let mut b = prey[i];
        let ghost b0 = b;
        assert(b.wf(w as int, h as int));
        b.update(w, h, food, params.speed_multiplier, predators, rng);
        let ghost j = choose|j: int|
            -PREY_JITTER <= j < PREY_JITTER && b == #[trigger] b0.stepped(
                w as int,
                h as int,
                food@,
                params.speed_multiplier as int,
                predators@,
                j,
            );
        let ghost moved = b;
        let (is_caught, child) = settle_prey(&mut b, food, &mut eaten_food, predators, params, w, h, rng);
        assert(eaten_food@ =~= food_marks_after(marks_before, food@, moved));
        let ghost g: Dna = match child {
            Some(c) => c.dna,
            None => prey0[i as int].dna.mutated(no_mutation(), params.mutation_rate as int),
        };
        assert(no_mutation().within(params.mutation_strength as int));
        assert(possible_child(prey0[i as int].dna, g, params.mutation_rate as int, params.mutation_strength as int));
        if is_caught {
            eaten_prey.set(i, true);
        }
        match child {
            Some(c) => {
                births.push(c);
            },
            None => {},
        }
        prey.set(i, b);
        proof {
            let js2 = js.push(j);
            let gs2 = gs.push(g);
            lemma_prey_pass_prefix(prey0, food@, predators@, *params, w as int, h as int, js, gs, js2, gs2, i as int);
            js = js2;
            gs = gs2;
            assert(prey_pass_spec(prey0, food@, predators@, *params, w as int, h as int, js, gs, i + 1).0 =~= prey@);
        }
        i = i + 1;
    }
    (eaten_food, eaten_prey, births)
}

/// The predator pass: each predator in turn moves toward the prey as they
/// stand after the prey pass, catches the unmarked prey within its lethal
/// radius, and may reproduce, as `predator_pass_spec` gives it for the
/// jitters that were drawn. Returns the offspring.
pub fn predator_pass(
    predators: &mut Vec<Predator>,
    prey: &Vec<Bacterium>,
    eaten_prey: &mut Vec<bool>,
    params: &SimulationParams,
    w: i64,
    h: i64,
    rng: &mut SimRng,
) -> (births: Vec<Predator>)
    requires
        world_ok(w as int, h as int),
        params.wf(),
        all_predators_wf(old(predators)@, w as int, h as int),
        all_prey_wf(prey@, w as int, h as int),
        old(eaten_prey)@.len() == prey@.len(),
    ensures
        exists|js: Seq<int>|
            predator_draws_ok(js, old(predators)@.len() as int) && (final(predators)@, final(eaten_prey)@, births@)
                == #[trigger] predator_pass_spec(
                old(predators)@,
                prey@,
                old(eaten_prey)@,
                *params,
                w as int,
                h as int,
                js,
                old(predators)@.len() as int,
            ),
        final(predators)@.len() == old(predators)@.len(),
        all_predators_wf(final(predators)@, w as int, h as int),
        marks_grow(old(eaten_prey)@, final(eaten_prey)@),
        all_predators_wf(births@, w as int, h as int),
        births@.len() <= old(predators)@.len(),
{
    let spots = prey_positions(prey);
    assert forall|j: int| 0 <= j < spots@.len() implies #[trigger] in_world(spots@[j], w as int, h as int) by {
        assert(prey@[j].wf(w as int, h as int));
    }
    assert forall|j: int| 0 <= j < prey@.len() implies in_world(#[trigger] prey@[j].pos, WORLD_CAP as int, WORLD_CAP as int)
        && 0 <= prey@[j].dna.size <= TRAIT_MAX by {
        assert(prey@[j].wf(w as int, h as int));
    }
    let ghost e0 = eaten_prey@;
    let ghost preds0 = predators@;
    let ghost mut js: Seq<int> = Seq::empty();
    let n = predators.len();
    let mut births: Vec<Predator> = Vec::new();
    let mut i: usize = 0;
    while i < n
        invariant
            n == predators@.len(),
            n == preds0.len(),
            i <= n,
            world_ok(w as int, h as int),
            params.wf(),
            all_predators_wf(predators@, w as int, h as int),
            spots@ == positions(prey@),
            forall|j: int| 0 <= j < spots@.len() ==> #[trigger] in_world(spots@[j], w as int, h as int),
            forall|j: int|
                0 <= j < prey@.len() ==> in_world(#[trigger] prey@[j].pos, WORLD_CAP as int, WORLD_CAP as int)
                    && 0 <= prey@[j].dna.size <= TRAIT_MAX,
            eaten_prey@.len() == prey@.len(),
            marks_grow(e0, eaten_prey@),
            predator_draws_ok(js, i as int),
            (predators@, eaten_prey@, births@) == predator_pass_spec(
                preds0,
                prey@,
                e0,
                *params,
                w as int,
                h as int,
                js,
                i as int,
            ),
            all_predators_wf(births@, w as int, h as int),
            births@.len() <= i,
        decreases n - i,
    {
        let mut p = predators[i];
        let ghost p_start = p;
        assert(p.wf(w as int, h as int));
        p.update(w, h, &spots, params.speed_multiplier, rng);
        let ghost j = choose|j: int|
            -PREDATOR_JITTER <= j < PREDATOR_JITTER && p == #[trigger] p_start.stepped(
                w as int,
                h as int,
                spots@,
                params.speed_multiplier as int,
                j,
            );
        let ghost moved = p;
        let ghost before = eaten_prey@;
        hunt(&mut p, prey, eaten_prey);
        assert(eaten_prey@ =~= prey_marks_after(before, prey@, moved));
        proof {
            vstd::arithmetic::mul::lemma_mul_nonnegative(80_000, count_new(before, eaten_prey@, prey@.len() as int) as int);
        }
        if p.energy > params.predator_reproduction_threshold {
            let child = p.split_off();
            births.push(child);
        }
        predators.set(i, p);
        proof {
            let js2 = js.push(j);
            lemma_predator_pass_prefix(preds0, prey@, e0, *params, w as int, h as int, js, js2, i as int);
            js = js2;
        }
        i = i + 1;
    }
    births
}

/// Food credited to the first `n` prey of a prey pass, in items.
pub open spec fn prey_pass_credits(
    prey0: Seq<Bacterium>,
    food: Seq<Vec2>,
    preds: Seq<Predator>,
    params: SimulationParams,
    w: int,
    h: int,
    js: Seq<int>,
    gs: Seq<Dna>,
    n: int,
) -> int
    decreases n,
{
    if n <= 0 {
        0
    } else {
        prey_pass_credits(prey0, food, preds, params, w, h, js, gs, n - 1) + count_new(
            prey_pass_spec(prey0, food, preds, params, w, h, js, gs, n - 1).1,
            prey_pass_spec(prey0, food, preds, params, w, h, js, gs, n).1,
            food.len() as int,
        )
    }
}

/// First touch wins: over a prey pass, the food items credited to the prey
/// add up to exactly the items marked eaten, so no item is credited twice.
pub proof fn lemma_prey_pass_first_touch(
    prey0: Seq<Bacterium>,
    food: Seq<Vec2>,
    preds: Seq<Predator>,
    params: SimulationParams,
    w: int,
    h: int,
    js: Seq<int>,
    gs: Seq<Dna>,
    n: int,
)
    requires
        n >= 0,
    ensures
        marks_grow(clear_marks(food.len()), prey_pass_spec(prey0, food, preds, params, w, h, js, gs, n).1),
        prey_pass_credits(prey0, food, preds, params, w, h, js, gs, n) == count_new(
            clear_marks(food.len()),
            prey_pass_spec(prey0, food, preds, params, w, h, js, gs, n).1,
            food.len() as int,
        ),
    decreases n,
{
    let clear = clear_marks(food.len());
    if n > 0 {
        lemma_prey_pass_first_touch(prey0, food, preds, params, w, h, js, gs, n - 1);
        let prev = prey_pass_spec(prey0, food, preds, params, w, h, js, gs, n - 1).1;
        let cur = prey_pass_spec(prey0, food, preds, params, w, h, js, gs, n).1;
        assert(marks_grow(prev, cur));
        lemma_first_touch(clear, prev, cur, food.len() as int);
    } else {
        lemma_count_new_none(clear, food.len() as int);
    }
}

proof fn lemma_count_new_none(m: Seq<bool>, n: int)
    ensures
        count_new(m, m, n) == 0,
    decreases n,
{
    if n > 0 {
        lemma_count_new_none(m, n - 1);
    }
}

proof fn lemma_prey_pass_lengths(
    prey0: Seq<Bacterium>,
    food: Seq<Vec2>,
    preds: Seq<Predator>,
    params: SimulationParams,
    w: int,
    h: int,
    js: Seq<int>,
    gs: Seq<Dna>,
    n: int,
)
    requires
        n <= prey0.len(),
    ensures
        prey_pass_spec(prey0, food, preds, params, w, h, js, gs, n).0.len() == prey0.len(),
        prey_pass_spec(prey0, food, preds, params, w, h, js, gs, n).2.len() == prey0.len(),
    decreases n,
{
    if n > 0 {
        lemma_prey_pass_lengths(prey0, food, preds, params, w, h, js, gs, n - 1);
    }
}

proof fn lemma_predator_pass_keeps_marks(
    preds0: Seq<Predator>,
    prey: Seq<Bacterium>,
    marks0: Seq<bool>,
    params: SimulationParams,
    w: int,
    h: int,
    js: Seq<int>,
    n: int,
)
    ensures
        marks_grow(marks0, predator_pass_spec(preds0, prey, marks0, params, w, h, js, n).1),
    decreases n,
{
    if n > 0 {
        lemma_predator_pass_keeps_marks(preds0, prey, marks0, params, w, h, js, n - 1);
    }
}

/// A prey caught in the prey pass is gone after the tick: none of the prey
/// that the tick keeps from the passes comes from its index.
pub proof fn lemma_caught_prey_gone(
    w0: World,
    params: SimulationParams,
    grown: Seq<Vec2>,
    pj: Seq<int>,
    gs: Seq<Dna>,
    qj: Seq<int>,
    i: int,
)
    requires
        0 <= i < w0.prey@.len(),
        prey_pass_spec(
            w0.prey@,
            grown,
            w0.predators@,
            params,
            w0.width as int,
            w0.height as int,
            pj,
            gs,
            w0.prey@.len() as int,
        ).2[i],
    ensures
        ({
            let np = w0.prey@.len() as int;
            let pp = prey_pass_spec(w0.prey@, grown, w0.predators@, params, w0.width as int, w0.height as int, pj, gs, np);
            let qq = predator_pass_spec(
                w0.predators@,
                pp.0,
                pp.2,
                params,
                w0.width as int,
                w0.height as int,
                qj,
                w0.predators@.len() as int,
            );
            forall|k: int|
                0 <= k < unmarked(pp.0, qq.1, np).len() ==> exists|j: int|
                    0 <= j < np && j != i && #[trigger] unmarked(pp.0, qq.1, np)[k] == #[trigger] pp.0[j]
        }),
{
    let np = w0.prey@.len() as int;
    let w = w0.width as int;
    let h = w0.height as int;
    let pp = prey_pass_spec(w0.prey@, grown, w0.predators@, params, w, h, pj, gs, np);
    let qq = predator_pass_spec(w0.predators@, pp.0, pp.2, params, w, h, qj, w0.predators@.len() as int);
    lemma_prey_pass_lengths(w0.prey@, grown, w0.predators@, params, w, h, pj, gs, np);
    lemma_predator_pass_keeps_marks(w0.predators@, pp.0, pp.2, params, w, h, qj, w0.predators@.len() as int);
    assert(qq.1[i]);
    crate::resolve::lemma_marked_removed(pp.0, qq.1, np);
    assert forall|k: int| 0 <= k < unmarked(pp.0, qq.1, np).len() implies exists|j: int|
        0 <= j < np && j != i && #[trigger] unmarked(pp.0, qq.1, np)[k] == #[trigger] pp.0[j] by {
        let j = choose|j: int| 0 <= j < np && !qq.1[j] && #[trigger] unmarked(pp.0, qq.1, np)[k] == #[trigger] pp.0[j];
        assert(j != i);
    }
}

/// `grown` is `food` after the growth step of a tick.
pub open spec fn grown_food(food: Seq<Vec2>, params: SimulationParams, grown: Seq<Vec2>, w: int, h: int) -> bool {
    &&& grown.len() == food.len() + if food.len() < params.max_food {
        params.food_growth_rate as int
    } else {
        0
    }
    &&& grown.take(food.len() as int) == food
    &&& all_food_in(grown, w, h)
}

/// `food`, `prey` and `preds` are what one tick makes of `w0`, with grown food
/// `grown`, prey-pass jitters `pj` and offspring genomes `gs`, and
/// predator-pass jitters `qj`: the food loses the items the prey ate; the
/// prey keep the uncaught members after both passes, then their offspring,
/// and the dead are dropped; the predators are followed by their offspring
/// and the dead dropped. Where no prey is left, `RESEED_COUNT` fresh prey
/// with the starting energy take their place.
pub open spec fn tick_outcome(
    w0: World,
    params: SimulationParams,
    grown: Seq<Vec2>,
    pj: Seq<int>,
    gs: Seq<Dna>,
    qj: Seq<int>,
    food: Seq<Vec2>,
    prey: Seq<Bacterium>,
    preds: Seq<Predator>,
) -> bool {
    let w = w0.width as int;
    let h = w0.height as int;
    let np = w0.prey@.len() as int;
    let nq = w0.predators@.len() as int;
    let pp = prey_pass_spec(w0.prey@, grown, w0.predators@, params, w, h, pj, gs, np);
    let qq = predator_pass_spec(w0.predators@, pp.0, pp.2, params, w, h, qj, nq);
    let kept = alive_prey(unmarked(pp.0, qq.1, np) + pp.3);
    &&& grown_food(w0.food@, params, grown, w, h)
    &&& prey_draws_ok(w0.prey@, params, pj, gs, np)
    &&& predator_draws_ok(qj, nq)
    &&& food == unmarked(grown, pp.1, grown.len() as int)
    &&& preds == alive_predators(qq.0 + qq.2)
    &&& kept.len() > 0 ==> prey == kept
    &&& kept.len() == 0 ==> prey.len() == RESEED_COUNT && forall|j: int|
        0 <= j < prey.len() ==> #[trigger] prey[j].energy == params.initial_energy && prey[j].age == 0
            && prey[j].dna.is_fresh()
}

impl World {
    /// Inside a valid rectangle: every agent valid, every food item inside,
    /// the statistics series of one length.
    pub open spec fn wf(&self) -> bool {
        &&& world_ok(self.width as int, self.height as int)
        &&& all_prey_wf(self.prey@, self.width as int, self.height as int)
        &&& all_predators_wf(self.predators@, self.width as int, self.height as int)
        &&& all_food_in(self.food@, self.width as int, self.height as int)
        &&& self.stats.wf()
    }

    /// A world of the given size with `INITIAL_PREY` random prey,
    /// `params.predator_count` predators and `INITIAL_FOOD` food items, all at
    /// random points, and empty statistics.
    pub fn new(width: i64, height: i64, params: &SimulationParams, rng: &mut SimRng) -> (r: World)
        requires
            world_ok(width as int, height as int),
            params.wf(),
        ensures
            r.wf(),
            r.width == width,
            r.height == height,
            r.prey@.len() == INITIAL_PREY,
            r.predators@.len() == params.predator_count,
            r.food@.len() == INITIAL_FOOD,
            r.stats.len() == 0,
            forall|j: int|
                0 <= j < INITIAL_PREY ==> #[trigger] r.prey@[j].energy == params.initial_energy && r.prey@[j].age == 0
                    && r.prey@[j].dna.is_fresh(),
            forall|j: int|
                0 <= j < r.predators@.len() ==> #[trigger] r.predators@[j].energy == PREDATOR_ENERGY
                    && r.predators@[j].speed == PREDATOR_SPEED && r.predators@[j].size == PREDATOR_SIZE
                    && r.predators@[j].sense_radius == PREDATOR_SENSE,
    {
        let prey = seed_prey(INITIAL_PREY, params.initial_energy, width, height, rng);
        let mut predators: Vec<Predator> = Vec::new();
        let mut k: usize = 0;
        while k < params.predator_count
            invariant
                k <= params.predator_count,
                world_ok(width as int, height as int),
                predators@.len() == k,
                all_predators_wf(predators@, width as int, height as int),
                forall|j: int|
                    0 <= j < predators@.len() ==> #[trigger] predators@[j].energy == PREDATOR_ENERGY
                        && predators@[j].speed == PREDATOR_SPEED && predators@[j].size == PREDATOR_SIZE
                        && predators@[j].sense_radius == PREDATOR_SENSE,
            decreases params.predator_count - k,
        {
            let pos = random_point(width, height, rng);
            let p = Predator::new(pos, rng);
            predators.push(p);
            k = k + 1;
        }
        let mut food: Vec<Vec2> = Vec::new();
        grow_food(&mut food, INITIAL_FOOD, INITIAL_FOOD, width, height, rng);
        assert forall|j: int| 0 <= j < INITIAL_PREY implies #[trigger] prey@[j].energy == params.initial_energy
            && prey@[j].age == 0 && prey@[j].dna.is_fresh() by {
            assert(prey@[j].energy == params.initial_energy);
        }
        let ghost seeded = prey@;
        let r = World { width, height, prey, predators, food, stats: Stats::new() };
        assert(r.prey@ == seeded);
        r
    }

    /// One tick: food growth, the prey pass, the predator pass, the commit
    /// (eaten food and prey removed, offspring appended, the dead dropped),
    /// and the failsafe that reseeds `RESEED_COUNT` prey after an extinction.
    pub fn tick(&mut self, params: &SimulationParams, rng: &mut SimRng)
        requires
            old(self).wf(),
            params.wf(),
        ensures
            final(self).wf(),
            final(self).width == old(self).width,
            final(self).height == old(self).height,
            final(self).stats == old(self).stats,
            final(self).prey@.len() > 0,
            final(self).food@.len() <= old(self).food@.len() + if old(self).food@.len() < params.max_food {
                params.food_growth_rate as int
            } else {
                0
            },
            final(self).predators@.len() <= 2 * old(self).predators@.len(),
            old(self).prey@.len() == 0 && old(self).predators@.len() == 0 && old(self).food@.len() == 0 ==> {
                &&& final(self).food@.len() == if 0 < params.max_food {
                    params.food_growth_rate as int
                } else {
                    0
                }
                &&& final(self).prey@.len() == RESEED_COUNT
                &&& forall|j: int|
                    0 <= j < RESEED_COUNT ==> #[trigger] final(self).prey@[j].energy == params.initial_energy
                        && final(self).prey@[j].age == 0
                &&& final(self).predators@.len() == 0
            },
            exists|grown: Seq<Vec2>, pj: Seq<int>, gs: Seq<Dna>, qj: Seq<int>|
                #[trigger] tick_outcome(
                    *old(self),
                    *params,
                    grown,
                    pj,
                    gs,
                    qj,
                    final(self).food@,
                    final(self).prey@,
                    final(self).predators@,
                ),
    {
        let w = self.width;
        let h = self.height;
        grow_food(&mut self.food, params.food_growth_rate, params.max_food, w, h, rng);
        let ghost prey0 = self.prey@;
        let ghost preds0 = self.predators@;
        let (eaten_food, mut eaten_prey, prey_births) = prey_pass(
            &mut self.prey,
            &self.food,
            &self.predators,
            params,
            w,
            h,
            rng,
        );
        let ghost (pj, gs) = choose|pj: Seq<int>, gs: Seq<Dna>|
            prey_draws_ok(prey0, *params, pj, gs, prey0.len() as int) && (
            self.prey@,
            eaten_food@,
            eaten_prey@,
            prey_births@,
        ) == #[trigger] prey_pass_spec(
                prey0,
                self.food@,
                preds0,
                *params,
                w as int,
                h as int,
                pj,
                gs,
                prey0.len() as int,
            );
        let ghost caught_marks = eaten_prey@;
        let predator_births = predator_pass(&mut self.predators, &self.prey, &mut eaten_prey, params, w, h, rng);
        let ghost qj = choose|qj: Seq<int>|
            predator_draws_ok(qj, preds0.len() as int) && (self.predators@, eaten_prey@, predator_births@)
                == #[trigger] predator_pass_spec(
                preds0,
                self.prey@,
                caught_marks,
                *params,
                w as int,
                h as int,
                qj,
                preds0.len() as int,
            );
        let ghost grown = self.food@;
        let ghost pb = prey_births@;
        let ghost qb = predator_births@;
        let ghost passed_prey = self.prey@;
        let ghost passed_predators = self.predators@;
        self.commit(&eaten_food, &eaten_prey, prey_births, predator_births);
        proof {
            lemma_unmarked_len(grown, eaten_food@, grown.len() as int);
            crate::resolve::lemma_alive_predators_len(passed_predators + qb);
            if old(self).prey@.len() == 0 && old(self).predators@.len() == 0 && old(self).food@.len() == 0 {
                assert(eaten_food@ == clear_marks(grown.len()));
                assert(pb.len() == 0);
                assert(no_marks_set(eaten_food@));
                lemma_unmarked_none(grown, eaten_food@, grown.len() as int);
                assert(grown.take(grown.len() as int) =~= grown);
                assert(unmarked(passed_prey, eaten_prey@, 0) + pb =~= Seq::<Bacterium>::empty());
                crate::resolve::lemma_alive_prey_len(Seq::<Bacterium>::empty());
            }
        }
        if self.prey.len() == 0 {
            self.prey = seed_prey(RESEED_COUNT, params.initial_energy, w, h, rng);
        }
        assert(tick_outcome(*old(self), *params, grown, pj, gs, qj, self.food@, self.prey@, self.predators@));
        proof {
            if old(self).prey@.len() == 0 && old(self).predators@.len() == 0 && old(self).food@.len() == 0 {
                assert(self.food@.len() == grown.len());
                assert(self.prey@.len() == RESEED_COUNT);
                assert(self.predators@.len() == 0);
            }
        }
    }

    /// Applies a tick's outcome: the food keeps its unmarked items; the prey
    /// keep their unmarked members followed by the prey offspring; the
    /// predators are followed by their offspring; then every agent without
    /// energy is dropped.
    pub fn commit(
        &mut self,
        eaten_food: &Vec<bool>,
        eaten_prey: &Vec<bool>,
        prey_births: Vec<Bacterium>,
        predator_births: Vec<Predator>,
    )
        requires
            old(self).wf(),
            eaten_food@.len() == old(self).food@.len(),
            eaten_prey@.len() == old(self).prey@.len(),
            all_prey_wf(prey_births@, old(self).width as int, old(self).height as int),
            all_predators_wf(predator_births@, old(self).width as int, old(self).height as int),
        ensures
            final(self).wf(),
            final(self).width == old(self).width,
            final(self).height == old(self).height,
            final(self).stats == old(self).stats,
            final(self).food@ == unmarked(old(self).food@, eaten_food@, old(self).food@.len() as int),
            final(self).prey@ == alive_prey(
                unmarked(old(self).prey@, eaten_prey@, old(self).prey@.len() as int) + prey_births@,
            ),
            final(self).predators@ == alive_predators(old(self).predators@ + predator_births@),
    {
        let ghost w = self.width as int;
        let ghost h = self.height as int;
        let ghost qb = predator_births@;
        let food = keep_unmarked(&self.food, eaten_food);
        proof {
            lemma_unmarked_all(self.food@, eaten_food@, self.food@.len() as int, |f: Vec2| in_world(f, w, h));
        }
        let mut prey = keep_unmarked(&self.prey, eaten_prey);
        proof {
            lemma_unmarked_all(self.prey@, eaten_prey@, self.prey@.len() as int, |b: Bacterium| b.wf(w, h));
        }
        let ghost pb = prey_births@;
        let mut prey_births = prey_births;
        prey.append(&mut prey_births);
        let ghost all_prey = prey@;
        proof {
            assert forall|j: int| 0 <= j < all_prey.len() implies (|b: Bacterium| b.wf(w, h))(#[trigger] all_prey[j]) by {
                let u = unmarked(self.prey@, eaten_prey@, self.prey@.len() as int);
                if j >= u.len() {
                    assert(all_prey[j] == pb[j - u.len()]);
                    assert(pb[j - u.len()].wf(w, h));
                } else {
                    assert(all_prey[j] == u[j]);
                }
            }
            lemma_filter_all(all_prey, |b: Bacterium| b.energy > 0, |b: Bacterium| b.wf(w, h));
        }
        let survivors = living_prey(&prey);
        let mut predator_births = predator_births;
        self.predators.append(&mut predator_births);
        let ghost all_predators = self.predators@;
        proof {
            assert forall|j: int| 0 <= j < all_predators.len() implies (|p: Predator| p.wf(w, h))(#[trigger] all_predators[j]) by {
                if j >= old(self).predators@.len() {
                    assert(all_predators[j] == qb[j - old(self).predators@.len()]);
                    assert(qb[j - old(self).predators@.len()].wf(w, h));
                } else {
                    assert(all_predators[j] == old(self).predators@[j]);
                    assert(old(self).predators@[j].wf(w, h));
                }
            }
            lemma_filter_all(all_predators, |p: Predator| p.energy > 0, |p: Predator| p.wf(w, h));
        }
        let hunters = living_predators(&self.predators);
        self.food = food;
        self.prey = survivors;
        self.predators = hunters;
    }

    /// One frame: a tick unless `paused`, then one statistics sample of the
    /// prey and predators as they stand (also when paused).
    pub fn frame(&mut self, params: &SimulationParams, paused: bool, rng: &mut SimRng)
        requires
            old(self).wf(),
            params.wf(),
        ensures
            final(self).wf(),
            final(self).stats.len() == if old(self).stats.len() < MAX_HISTORY {
                old(self).stats.len() + 1
            } else {
                MAX_HISTORY as nat
            },
            final(self).stats.population_history@.last() == final(self).prey@.len() as u64,
            final(self).stats.predator_history@.last() == final(self).predators@.len() as u64,
            paused ==> final(self).prey@ == old(self).prey@ && final(self).predators@ == old(self).predators@
                && final(self).food@ == old(self).food@,
            !paused ==> exists|grown: Seq<Vec2>, pj: Seq<int>, gs: Seq<Dna>, qj: Seq<int>|
                #[trigger] tick_outcome(
                    *old(self),
                    *params,
                    grown,
                    pj,
                    gs,
                    qj,
                    final(self).food@,
                    final(self).prey@,
                    final(self).predators@,
                ),
            final(self).stats.population_history@ == rolled(
                old(self).stats.population_history@,
                final(self).prey@.len() as u64,
            ),
            final(self).stats.avg_speed_history@ == rolled(
                old(self).stats.avg_speed_history@,
                mean(total_speed(final(self).prey@), final(self).prey@.len() as int) as i64,
            ),
            final(self).stats.avg_size_history@ == rolled(
                old(self).stats.avg_size_history@,
                mean(total_size(final(self).prey@), final(self).prey@.len() as int) as i64,
            ),
            final(self).stats.predator_history@ == rolled(
                old(self).stats.predator_history@,
                final(self).predators@.len() as u64,
            ),
    {
        let ghost w0 = *old(self);
        if !paused {
            self.tick(params, rng);
        }
        let ghost mid_food = self.food@;
        let ghost mid_prey = self.prey@;
        let ghost mid_predators = self.predators@;
        proof {
            assert forall|j: int| 0 <= j < self.prey@.len() implies 0 <= #[trigger] self.prey@[j].dna.speed <= TRAIT_MAX
                && 0 <= self.prey@[j].dna.size <= TRAIT_MAX by {
                assert(self.prey@[j].wf(self.width as int, self.height as int));
            }
        }
        let count = self.predators.len();
        self.stats.record(&self.prey, count);
        proof {
            if !paused {
                let (grown, pj, gs, qj) = choose|grown: Seq<Vec2>, pj: Seq<int>, gs: Seq<Dna>, qj: Seq<int>|
                    #[trigger] tick_outcome(w0, *params, grown, pj, gs, qj, mid_food, mid_prey, mid_predators);
                assert(tick_outcome(w0, *params, grown, pj, gs, qj, self.food@, self.prey@, self.predators@));
            }
        }
    }
}

/// `count` fresh random prey at random points with energy `energy`.
pub fn seed_prey(count: usize, energy: i64, w: i64, h: i64, rng: &mut SimRng) -> (r: Vec<Bacterium>)
    requires
        world_ok(w as int, h as int),
        -crate::fixed::ENERGY_CAP <= energy <= crate::fixed::ENERGY_CAP,
    ensures
        r@.len() == count,
        all_prey_wf(r@, w as int, h as int),
        forall|j: int| 0 <= j < r@.len() ==> #[trigger] r@[j].energy == energy && r@[j].age == 0 && r@[j].dna.is_fresh(),
{
    let mut r: Vec<Bacterium> = Vec::new();
    let mut k: usize = 0;
    while k < count
        invariant
            k <= count,
            world_ok(w as int, h as int),
            -crate::fixed::ENERGY_CAP <= energy <= crate::fixed::ENERGY_CAP,
            r@.len() == k,
            all_prey_wf(r@, w as int, h as int),
            forall|j: int| 0 <= j < r@.len() ==> #[trigger] r@[j].energy == energy && r@[j].age == 0 && r@[j].dna.is_fresh(),
        decreases count - k,
    {
        let pos = random_point(w, h, rng);
        let b = Bacterium::new(pos, energy, rng);
        r.push(b);
        k = k + 1;
    }
    r
}

} // verus!
