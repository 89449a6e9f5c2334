//! The state of a simulated-annealing run, and its transitions.
//!
//! A run alternates two steps. `propose` draws a neighbour of the current
//! schedule and reports by how much its cost differs. `decide` accepts or
//! rejects that candidate: a candidate that costs less is always accepted,
//! any other only if the caller, who keeps the temperature, says so.

use super::algorithm::{get_neighbor, is_neighbor};
use super::constraint_evaluator::evaluate_schedule;
use super::semantics::schedule_cost;
use crate::domain::constraint::constraint_views;
use crate::domain::{AssignmentView, Constraint, ConstraintView, ProblemData, ProblemView, Schedule};
use rand::rngs::StdRng;
use vstd::prelude::*;

verus! {

/// The state of a run.
pub struct Annealing<'a> {
    problem_data: &'a ProblemData,
    constraints: &'a [Constraint],
    current: Schedule,
    current_cost: u32,
    best: Schedule,
    best_cost: u32,
    initial_cost: u32,
    candidate: Option<(Schedule, u32)>,
}

/// The mathematical content of an [`Annealing`].
pub struct AnnealingView {
    pub problem: ProblemView,
    pub constraints: Seq<ConstraintView>,
    pub current: Seq<AssignmentView>,
    pub current_cost: u32,
    pub best: Seq<AssignmentView>,
    pub best_cost: u32,
    pub initial_cost: u32,
    pub candidate: Option<(Seq<AssignmentView>, u32)>,
}

impl AnnealingView {
    /// The cost of a schedule in this run's problem, under its constraints.
    pub open spec fn cost_of(self, s: Seq<AssignmentView>) -> u32 {
        schedule_cost(s, self.problem, self.constraints)
    }

    /// The recorded costs are the costs of the schedules they stand for, and
    /// the best schedule costs no more than the current one and no more than
    /// the first.
    pub open spec fn consistent(self) -> bool {
        &&& self.current_cost == self.cost_of(self.current)
        &&& self.best_cost == self.cost_of(self.best)
        &&& self.best_cost <= self.current_cost
        &&& self.best_cost <= self.initial_cost
        &&& match self.candidate {
            Some(c) => c.1 == self.cost_of(c.0),
            None => true,
        }
    }

    /// The state in which a run starts: the first schedule is the current
    /// and the best one.
    pub open spec fn started(
        problem: ProblemView,
        constraints: Seq<ConstraintView>,
        initial: Seq<AssignmentView>,
    ) -> AnnealingView {
        let cost = schedule_cost(initial, problem, constraints);
        AnnealingView {
            problem,
            constraints,
            current: initial,
            current_cost: cost,
            best: initial,
            best_cost: cost,
            initial_cost: cost,
            candidate: None,
        }
    }

    /// The state after `candidate` has been put up for decision.
    pub open spec fn considering(self, candidate: Seq<AssignmentView>) -> AnnealingView {
        AnnealingView { candidate: Some((candidate, self.cost_of(candidate))), ..self }
    }

    /// The cost of the candidate less the cost of the current schedule; 0
    /// without a candidate.
    pub open spec fn delta(self) -> int {
        match self.candidate {
            Some(c) => c.1 - self.current_cost,
            None => 0,
        }
    }

    /// Whether a decision accepts the candidate: there is one, and it costs
    /// less than the current schedule or the caller accepts a worse one.
    pub open spec fn accepts(self, accept_worse: bool) -> bool {
        self.candidate is Some && (self.delta() < 0 || accept_worse)
    }

    /// The state after the decision. An accepted candidate becomes the
    /// current schedule, and the best one if it costs less than the best so
    /// far. Either way no candidate is left.
    pub open spec fn decided(self, accept_worse: bool) -> AnnealingView {
        if self.accepts(accept_worse) {
            let c = self.candidate->0;
            let improves = c.1 < self.best_cost;
            AnnealingView {
                current: c.0,
                current_cost: c.1,
                best: if improves {
                    c.0
                } else {
                    self.best
                },
                best_cost: if improves {
                    c.1
                } else {
                    self.best_cost
                },
                candidate: None,
                ..self
            }
        } else {
            AnnealingView { candidate: None, ..self }
        }
    }
}

/// A run starts in a consistent state, and every step keeps it consistent.
/// The cost of the best schedule never rises and never exceeds the cost of
/// the first schedule.
pub proof fn lemma_best_never_rises(v: AnnealingView, candidate: Seq<AssignmentView>, accept_worse: bool)
    requires
        v.consistent(),
    ensures
        v.considering(candidate).consistent(),
        v.considering(candidate).best_cost == v.best_cost,
        v.decided(accept_worse).consistent(),
        v.decided(accept_worse).best_cost <= v.best_cost,
        v.decided(accept_worse).best_cost <= v.initial_cost,
        v.decided(accept_worse).initial_cost == v.initial_cost,
{
}

/// The first state of a run is consistent, and its best cost is the cost of
/// the first schedule.
pub proof fn lemma_started_consistent(
    problem: ProblemView,
    constraints: Seq<ConstraintView>,
    initial: Seq<AssignmentView>,
)
    ensures
        AnnealingView::started(problem, constraints, initial).consistent(),
        AnnealingView::started(problem, constraints, initial).best_cost == schedule_cost(
            initial,
            problem,
            constraints,
        ),
{
}

/// A run in which the caller never accepts a worse candidate is a greedy
/// descent: a candidate is accepted only if it costs less than the current
/// schedule, so the current cost never rises and the current schedule stays
/// the best one.
pub proof fn lemma_greedy_descent(v: AnnealingView)
    requires
        v.consistent(),
    ensures
        v.accepts(false) <==> v.candidate is Some && v.delta() < 0,
        v.decided(false).current_cost <= v.current_cost,
        v.best_cost == v.current_cost ==> v.decided(false).best_cost == v.decided(false).current_cost,
{
}

impl<'a> View for Annealing<'a> {
    type V = AnnealingView;

    closed spec fn view(&self) -> AnnealingView {
        AnnealingView {
            problem: self.problem_data@,
            constraints: constraint_views(self.constraints@),
            current: self.current@,
            current_cost: self.current_cost,
            best: self.best@,
            best_cost: self.best_cost,
            initial_cost: self.initial_cost,
            candidate: match self.candidate {
                Some(c) => Some((c.0@, c.1)),
                None => None,
            },
        }
    }
}

impl<'a> Annealing<'a> {
    /// Every state of a run is consistent.
    #[verifier::type_invariant]
    pub closed spec fn wf(&self) -> bool {
        self@.consistent()
    }

    /// Starts a run from `initial_schedule`.
    pub fn new(problem_data: &'a ProblemData, constraints: &'a [Constraint], initial_schedule: Schedule) -> (run:
        Self)
        ensures
            run@ == AnnealingView::started(
                problem_data@,
                constraint_views(constraints@),
                initial_schedule@,
            ),
            run@.consistent(),
    {
        let cost = evaluate_schedule(&initial_schedule, problem_data, constraints);
        let best = initial_schedule.clone();
        Annealing {
            problem_data,
            constraints,
            current: initial_schedule,
            current_cost: cost,
            best,
            best_cost: cost,
            initial_cost: cost,
            candidate: None,
        }
    }

    /// Puts `candidate` up for decision and reports its cost less the cost
    /// of the current schedule. A candidate still undecided is dropped.
    pub fn consider(self, candidate: Schedule) -> (r: (Self, i64))
        ensures
            r.0@ == self@.considering(candidate@),
            r.1 == r.0@.delta(),
            r.0@.consistent(),
    {
        proof {
            use_type_invariant(&self);
        }
        let cost = evaluate_schedule(&candidate, self.problem_data, self.constraints);
        let delta = cost as i64 - self.current_cost as i64;
        let next = Annealing {
            problem_data: self.problem_data,
            constraints: self.constraints,
            current: self.current,
            current_cost: self.current_cost,
            best: self.best,
            best_cost: self.best_cost,
            initial_cost: self.initial_cost,
            candidate: Some((candidate, cost)),
        };
        (next, delta)
    }

    /// Draws a neighbour of the current schedule, puts it up for decision
    /// and reports its cost less the cost of the current schedule.
    pub fn propose(self, rng: &mut StdRng) -> (r: (Self, i64))
        ensures
            match r.0@.candidate {
                Some(c) => is_neighbor(self@.current, self@.problem, c.0) && r.0@
                    == self@.considering(c.0),
                None => false,
            },
            r.1 == r.0@.delta(),
            r.0@.consistent(),
    {
        let neighbor = get_neighbor(&self.current, self.problem_data, rng);
        self.consider(neighbor)
    }

    /// Decides on the candidate, if there is one. It is accepted if it costs
    /// less than the current schedule, and otherwise only if `accept_worse`
    /// says so. An accepted candidate becomes the current schedule, and the
    /// best one if it costs less than the best so far.
    pub fn decide(self, accept_worse: bool) -> (next: Self)
        ensures
            next@ == self@.decided(accept_worse),
            next@.consistent(),
            next@.best_cost <= self@.best_cost,
    {
        proof {
            use_type_invariant(&self);
        }
        match self.candidate {
            Some((schedule, cost)) => {
                if cost < self.current_cost || accept_worse {
                    if cost < self.best_cost {
                        let best = schedule.clone();
                        Annealing {
                            problem_data: self.problem_data,
                            constraints: self.constraints,
                            current: schedule,
                            current_cost: cost,
                            best,
                            best_cost: cost,
                            initial_cost: self.initial_cost,
                            candidate: None,
                        }
                    } else {
                        Annealing {
                            problem_data: self.problem_data,
                            constraints: self.constraints,
                            current: schedule,
                            current_cost: cost,
                            best: self.best,
                            best_cost: self.best_cost,
                            initial_cost: self.initial_cost,
                            candidate: None,
                        }
                    }
                } else {
                    Annealing {
                        problem_data: self.problem_data,
                        constraints: self.constraints,
                        current: self.current,
                        current_cost: self.current_cost,
                        best: self.best,
                        best_cost: self.best_cost,
                        initial_cost: self.initial_cost,
                        candidate: None,
                    }
                }
            },
            None => self,
        }
    }

    /// The current schedule.
    pub fn current(&self) -> (s: &Schedule)
        ensures
            s@ == self@.current,
    {
        &self.current
    }

    /// The cost of the current schedule.
    pub fn current_cost(&self) -> (cost: u32)
        ensures
            cost == self@.current_cost,
            cost == self@.cost_of(self@.current),
    {
        proof {
            use_type_invariant(self);
        }
        self.current_cost
    }

    /// The best schedule so far.
    pub fn best(&self) -> (s: &Schedule)
        ensures
            s@ == self@.best,
    {
        &self.best
    }

    /// The cost of the best schedule so far, which is at most the cost of
    /// the schedule that the run started from.
    pub fn best_cost(&self) -> (cost: u32)
        ensures
            cost == self@.best_cost,
            cost == self@.cost_of(self@.best),
            cost <= self@.initial_cost,
            cost <= self@.current_cost,
    {
        proof {
            use_type_invariant(self);
        }
        self.best_cost
    }

    /// The cost of the schedule that the run started from.
    pub fn initial_cost(&self) -> (cost: u32)
        ensures
            cost == self@.initial_cost,
    {
        self.initial_cost
    }

    /// Ends the run and hands out the best schedule.
    pub fn into_best(self) -> (s: Schedule)
        ensures
            s@ == self@.best,
            self@.cost_of(s@) == self@.best_cost,
            self@.best_cost <= self@.initial_cost,
    {
        proof {
            use_type_invariant(&self);
        }
        self.best
    }
}

} // verus!
