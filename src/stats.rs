//! A rolling history of population statistics, one sample per tick.
use vstd::prelude::*;
use crate::dna::TRAIT_MAX;
use crate::prey::Bacterium;

verus! {

/// Capacity of each history series.
pub const MAX_HISTORY: usize = 300;

/// Four parallel series, newest sample last: prey count, mean prey speed,
/// mean prey size (thousandths) and predator count.
#[derive(Debug)]
pub struct Stats {
    pub population_history: Vec<u64>,
    pub avg_speed_history: Vec<i64>,
    pub avg_size_history: Vec<i64>,
    pub predator_history: Vec<u64>,
}

/// `s` with `x` appended, dropping the oldest entry beyond `MAX_HISTORY`.
pub open spec fn rolled<T>(s: Seq<T>, x: T) -> Seq<T> {
    if s.len() + 1 > MAX_HISTORY {
        s.push(x).drop_first()
    } else {
        s.push(x)
    }
}

/// Sum of the speeds of the prey `bs`.
pub open spec fn total_speed(bs: Seq<Bacterium>) -> int
    decreases bs.len(),
{
    if bs.len() == 0 {
        0
    } else {
        total_speed(bs.drop_last()) + bs.last().dna.speed
    }
}

/// Sum of the sizes of the prey `bs`.
pub open spec fn total_size(bs: Seq<Bacterium>) -> int
    decreases bs.len(),
{
    if bs.len() == 0 {
        0
    } else {
        total_size(bs.drop_last()) + bs.last().dna.size
    }
}

/// The mean of a total over `n` items, rounded down; zero for no items.
pub open spec fn mean(total: int, n: int) -> int {
    if n == 0 {
        0
    } else {
        total / n
    }
}

/// Every prey's speed and size are non-negative and at most `TRAIT_MAX`.
pub open spec fn traits_bounded(bs: Seq<Bacterium>) -> bool {
    forall|j: int| 0 <= j < bs.len() ==> 0 <= #[trigger] bs[j].dna.speed <= TRAIT_MAX && 0 <= bs[j].dna.size <= TRAIT_MAX
}

impl Stats {
    /// The four series have one length, at most `MAX_HISTORY`.
    pub open spec fn wf(&self) -> bool {
        &&& self.population_history@.len() <= MAX_HISTORY
        &&& self.avg_speed_history@.len() == self.population_history@.len()
        &&& self.avg_size_history@.len() == self.population_history@.len()
        &&& self.predator_history@.len() == self.population_history@.len()
    }

    /// The common length of the four series.
    pub open spec fn len(&self) -> nat {
        self.population_history@.len()
    }

    /// Empty histories.
    pub fn new() -> (r: Stats)
        ensures
            r.wf(),
            r.len() == 0,
    {
        Stats {
            population_history: Vec::new(),
            avg_speed_history: Vec::new(),
            avg_size_history: Vec::new(),
            predator_history: Vec::new(),
        }
    }

    /// Appends one sample to each series, dropping the oldest once a series
    /// exceeds `MAX_HISTORY`; the series keep one length.
    pub fn push(&mut self, pop: u64, speed: i64, size: i64, predators: u64)
        requires
            old(self).wf(),
        ensures
            final(self).wf(),
            final(self).population_history@ == rolled(old(self).population_history@, pop),
            final(self).avg_speed_history@ == rolled(old(self).avg_speed_history@, speed),
            final(self).avg_size_history@ == rolled(old(self).avg_size_history@, size),
            final(self).predator_history@ == rolled(old(self).predator_history@, predators),
            final(self).len() == if old(self).len() < MAX_HISTORY {
                old(self).len() + 1
            } else {
                MAX_HISTORY as nat
            },
    {
        self.population_history.push(pop);
        self.avg_speed_history.push(speed);
        self.avg_size_history.push(size);
        self.predator_history.push(predators);
        if self.population_history.len() > MAX_HISTORY {
            self.population_history.remove(0);
            self.avg_speed_history.remove(0);
            self.avg_size_history.remove(0);
            self.predator_history.remove(0);
        }
        proof {
            assert(old(self).population_history@.push(pop).remove(0) =~= old(self).population_history@.push(pop).drop_first());
            assert(old(self).avg_speed_history@.push(speed).remove(0) =~= old(self).avg_speed_history@.push(speed).drop_first());
            assert(old(self).avg_size_history@.push(size).remove(0) =~= old(self).avg_size_history@.push(size).drop_first());
            assert(old(self).predator_history@.push(predators).remove(0) =~= old(self).predator_history@.push(predators).drop_first());
        }
    }

    /// Samples the prey `bs` and the predator count: the prey count, the
    /// mean speed and mean size (zero when there is no prey), and the
    /// predator count are appended as by `push`.
    pub fn record(&mut self, bs: &Vec<Bacterium>, predator_count: usize)
        requires
            old(self).wf(),
            traits_bounded(bs@),
        ensures
            final(self).wf(),
            final(self).population_history@ == rolled(old(self).population_history@, bs@.len() as u64),
            final(self).avg_speed_history@ == rolled(
                old(self).avg_speed_history@,
                mean(total_speed(bs@), bs@.len() as int) as i64,
            ),
            final(self).avg_size_history@ == rolled(
                old(self).avg_size_history@,
                mean(total_size(bs@), bs@.len() as int) as i64,
            ),
            final(self).predator_history@ == rolled(old(self).predator_history@, predator_count as u64),
            final(self).len() == if old(self).len() < MAX_HISTORY {
                old(self).len() + 1
            } else {
                MAX_HISTORY as nat
            },
    {
        let (speed, size) = trait_means(bs);
        self.push(bs.len() as u64, speed, size, predator_count as u64);
    }
}

/// The mean speed and mean size of the prey `bs`, rounded down; zero for no
/// prey.
pub fn trait_means(bs: &Vec<Bacterium>) -> (r: (i64, i64))
    requires
        traits_bounded(bs@),
    ensures
        r.0 == mean(total_speed(bs@), bs@.len() as int),
        r.1 == mean(total_size(bs@), bs@.len() as int),
        0 <= r.0 <= TRAIT_MAX,
        0 <= r.1 <= TRAIT_MAX,
{
    let mut speed_sum: u128 = 0;
    let mut size_sum: u128 = 0;
    let mut i: usize = 0;
    while i < bs.len()
        invariant
            i <= bs@.len(),
            traits_bounded(bs@),
            speed_sum == total_speed(bs@.take(i as int)),
            size_sum == total_size(bs@.take(i as int)),
            speed_sum <= i * TRAIT_MAX,
            size_sum <= i * TRAIT_MAX,
        decreases bs@.len() - i,
    {
        assert(bs@.take(i + 1).drop_last() =~= bs@.take(i as int));
        let b = bs[i];
        assert(0 <= bs@[i as int].dna.speed <= TRAIT_MAX);
        speed_sum = speed_sum + b.dna.speed as u128;
        size_sum = size_sum + b.dna.size as u128;
        i = i + 1;
    }
    assert(bs@.take(bs@.len() as int) =~= bs@);
    if bs.len() == 0 {
        (0, 0)
    } else {
        let n = bs.len() as u128;
        proof {
            vstd::arithmetic::div_mod::lemma_div_is_ordered(speed_sum as int, n * TRAIT_MAX, n as int);
            vstd::arithmetic::div_mod::lemma_div_is_ordered(size_sum as int, n * TRAIT_MAX, n as int);
            vstd::arithmetic::div_mod::lemma_div_multiples_vanish(TRAIT_MAX as int, n as int);
        }
        ((speed_sum / n) as i64, (size_sum / n) as i64)
    }
}

} // verus!
