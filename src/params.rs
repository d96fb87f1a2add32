//! Tunable parameters of the simulation, read every tick.
use vstd::prelude::*;
use crate::fixed::ENERGY_CAP;
use crate::motion::MULT_CAP;

verus! {

/// Parameters read by every tick and changed between ticks from outside.
/// Probabilities and strengths are in per mille, energies and the speed
/// multiplier in thousandths.
#[derive(Clone, Copy, Debug, PartialEq, Eq, Structural)]
pub struct SimulationParams {
    /// Food items added per tick while below `max_food`.
    pub food_growth_rate: usize,
    pub max_food: usize,
    pub mutation_rate: u32,
    pub mutation_strength: u32,
    pub reproduction_threshold: i64,
    pub initial_energy: i64,
    pub speed_multiplier: i64,
    pub predator_count: usize,
    pub predator_reproduction_threshold: i64,
}

impl SimulationParams {
    /// Thresholds non-negative, all values within the ranges that the
    /// arithmetic holds.
    pub open spec fn wf(self) -> bool {
        &&& 0 <= self.reproduction_threshold <= ENERGY_CAP
        &&& -ENERGY_CAP <= self.initial_energy <= ENERGY_CAP
        &&& 0 <= self.speed_multiplier <= MULT_CAP
        &&& 0 <= self.predator_reproduction_threshold <= ENERGY_CAP
    }
}

impl Default for SimulationParams {
    /// Two food items per tick up to 1000, mutation rate and strength 0.1,
    /// reproduction at 150 energy, 100 starting energy, speed 1.0, five
    /// predators reproducing at 200 energy.
    fn default() -> (r: SimulationParams)
        ensures
            r.wf(),
            r.food_growth_rate == 2,
            r.max_food == 1000,
            r.mutation_rate == 100,
            r.mutation_strength == 100,
            r.reproduction_threshold == 150_000,
            r.initial_energy == 100_000,
            r.speed_multiplier == 1000,
            r.predator_count == 5,
            r.predator_reproduction_threshold == 200_000,
    {
        SimulationParams {
            food_growth_rate: 2,
            max_food: 1000,
            mutation_rate: 100,
            mutation_strength: 100,
            reproduction_threshold: 150_000,
            initial_energy: 100_000,
            speed_multiplier: 1000,
            predator_count: 5,
            predator_reproduction_threshold: 200_000,
        }
    }
}

} // verus!
