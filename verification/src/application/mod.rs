//! Evaluating schedules against constraints, and searching for better ones.

pub mod algorithm;
pub mod annealing;
pub mod constraint_evaluator;
pub mod counting;
pub mod laws;
pub mod random;
pub mod semantics;

pub use algorithm::{create_random_schedule, get_neighbor};
pub use annealing::Annealing;
pub use constraint_evaluator::evaluate_schedule;
