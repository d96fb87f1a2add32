//! A fixed-point agent-based ecosystem: prey with heritable traits forage for
//! food and flee predators, reproduce above an energy threshold and mutate
//! across generations. All quantities are integers in thousandths of a unit.
pub mod fixed;
pub mod geom;
pub mod rng;
pub mod dna;
pub mod motion;
pub mod prey;
pub mod predator;
pub mod params;
pub mod stats;
pub mod resolve;
pub mod world;
