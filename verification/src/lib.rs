//! Swarm intelligence on a ternary grid: balanced-ternary digits, grid
//! positions, pheromone trails, ant tours, particle motion, flocking and
//! collective decisions, with their behaviour stated as contracts.

pub mod decision;
pub mod flock;
pub mod grid;
pub mod pheromone;
pub mod swarm;
pub mod tour;
pub mod trit;

pub use decision::{collective_decision, consensus_round};
pub use flock::{AlignmentRule, Boid, Flock};
pub use grid::GridPos;
pub use pheromone::PheromoneGrid;
pub use swarm::particle_motion;
pub use tour::Tour;
pub use trit::{clamp_trit, Trit};
