//! Schedules: the decision variable of the search.

use super::item::{ItemId, ProblemView, SetType};
use crate::name_map::NameMap;
use vstd::prelude::*;

verus! {

/// Binds one task to one member of each named resource category.
#[derive(Debug)]
pub struct Assignment {
    pub task_id: ItemId,
    pub task_item_name: String,
    pub resources: NameMap<ItemId>,
}

/// The mathematical content of an [`Assignment`].
pub struct AssignmentView {
    pub task_id: ItemId,
    pub task_item_name: Seq<char>,
    pub resources: Map<Seq<char>, ItemId>,
}

impl View for Assignment {
    type V = AssignmentView;

    open spec fn view(&self) -> AssignmentView {
        AssignmentView {
            task_id: self.task_id,
            task_item_name: self.task_item_name@,
            resources: self.resources@,
        }
    }
}

impl AssignmentView {
    /// The task's category exists, holds tasks, and has the task among its
    /// members.
    pub open spec fn task_exists(self, p: ProblemView) -> bool {
        &&& p.item_categories.contains_key(self.task_item_name)
        &&& p.item_categories[self.task_item_name].item_set_type == SetType::B_Set
        &&& p.item_categories[self.task_item_name].has_member(self.task_id)
    }

    /// Every bound resource id is the id of a member of the category that it
    /// is bound under.
    pub open spec fn resources_exist(self, p: ProblemView) -> bool {
        forall|key: Seq<char>| #[trigger]
            self.resources.contains_key(key) ==> p.item_categories.contains_key(key)
                && p.item_categories[key].has_member(self.resources[key])
    }

    /// Every resource is bound under the name of a category that holds
    /// resources.
    pub open spec fn resources_named(self, p: ProblemView) -> bool {
        forall|key: Seq<char>| #[trigger]
            self.resources.contains_key(key) ==> p.item_categories.contains_key(key)
                && p.item_categories[key].item_set_type == SetType::E_Set
    }

    /// The assignment refers to existing members only: its task to a member
    /// of a task category, each resource to a member of the resource
    /// category that it is bound under.
    pub open spec fn refers_into(self, p: ProblemView) -> bool {
        self.task_exists(p) && self.resources_exist(p) && self.resources_named(p)
    }
}

/// Every resource id of the schedule exists in its category.
pub open spec fn resources_exist(s: Seq<AssignmentView>, p: ProblemView) -> bool {
    forall|i: int| 0 <= i < s.len() ==> (#[trigger] s[i]).resources_exist(p)
}

/// Every assignment of the schedule refers to existing members only.
pub open spec fn refers_into(s: Seq<AssignmentView>, p: ProblemView) -> bool {
    forall|i: int| 0 <= i < s.len() ==> (#[trigger] s[i]).refers_into(p)
}

impl Clone for Assignment {
    fn clone(&self) -> (res: Self)
        ensures
            res@ == self@,
            res.resources.names() == self.resources.names(),
    {
        let resources = self.resources.clone();
        proof {
            self.resources.lemma_wf();
            resources.lemma_wf();
            assert(resources@ =~= self.resources@);
        }
        Assignment { task_id: self.task_id, task_item_name: self.task_item_name.clone(), resources }
    }
}

/// An ordered collection of assignments.
#[derive(Debug)]
pub struct Schedule {
    pub assignments: Vec<Assignment>,
}

impl View for Schedule {
    type V = Seq<AssignmentView>;

    open spec fn view(&self) -> Seq<AssignmentView> {
        self.assignments@.map_values(|a: Assignment| a@)
    }
}

impl Clone for Schedule {
    fn clone(&self) -> (res: Self)
        ensures
            res@ == self@,
    {
        let mut assignments: Vec<Assignment> = Vec::new();
        let mut i: usize = 0;
        while i < self.assignments.len()
            invariant
                i <= self.assignments@.len(),
                assignments@.len() == i,
                forall|j: int| 0 <= j < i ==> (#[trigger] assignments@[j])@ == self.assignments@[j]@,
            decreases self.assignments@.len() - i,
        {
            assignments.push(self.assignments[i].clone());
            i += 1;
        }
        Schedule { assignments }
    }
}

impl Schedule {
    /// A schedule of the given assignments, in their order.
    pub fn new(assignments: Vec<Assignment>) -> (s: Self)
        ensures
            s.assignments == assignments,
    {
        Self { assignments }
    }

    /// The number of assignments.
    pub fn len(&self) -> (n: usize)
        ensures
            n == self@.len(),
    {
        self.assignments.len()
    }

    /// Whether the schedule has no assignment.
    pub fn is_empty(&self) -> (b: bool)
        ensures
            b == (self@.len() == 0),
    {
        self.assignments.len() == 0
    }
}

} // verus!
