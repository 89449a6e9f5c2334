//! A constraint-based scheduling engine: a typed language of constraint
//! rules, an evaluator that turns a schedule into a weighted violation cost,
//! and the building blocks of a simulated-annealing search over schedules.

pub mod api_error;
pub mod application;
pub mod domain;
pub mod json_types;
pub mod name_map;
pub mod routes;
pub mod sample;
pub mod sequences;
pub mod text;
