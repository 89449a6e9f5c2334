//! The result of a solve, and the schedule that a solve starts from.

use crate::domain::Schedule;
use vstd::prelude::*;

pub use crate::application::algorithm::create_random_schedule;

verus! {

/// The best schedule that a solve found, and its cost.
#[derive(Debug)]
pub struct SolveResponse {
    pub schedule: Schedule,
    pub final_cost: u32,
}

} // verus!
