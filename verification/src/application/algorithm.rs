//! The moves of the search: the neighbours of a schedule, and a random first
//! schedule.

use super::random::{pick, random_index, random_ratio};
use crate::domain::schedule::{refers_into, resources_exist};
use crate::domain::{
    Assignment, AssignmentView, ItemId, ProblemData, ProblemView, Schedule, SetType,
};
use crate::name_map::NameMap;
use rand::rngs::StdRng;
use vstd::prelude::*;

verus! {

/// The assignment `a` with the resource `key` bound to `id`.
pub open spec fn rebound(a: AssignmentView, key: Seq<char>, id: ItemId) -> AssignmentView {
    AssignmentView { task_id: a.task_id, task_item_name: a.task_item_name, resources: a.resources.insert(key, id) }
}

/// Binds the resource `key` of the assignment at `index` to `id`.
fn set_resource(schedule: &mut Schedule, index: usize, key: String, id: ItemId)
    requires
        index < old(schedule)@.len(),
    ensures
        final(schedule)@ == old(schedule)@.update(
            index as int,
            rebound(old(schedule)@[index as int], key@, id),
        ),
{
    schedule.assignments[index].resources.insert(key, id);
}

/// `t` comes from `s` by a reassignment: one resource that an assignment
/// binds, under the name of an existing category, is bound to a member of
/// that category.
pub open spec fn is_reassignment(s: Seq<AssignmentView>, p: ProblemView, t: Seq<AssignmentView>) -> bool {
    exists|i: int, key: Seq<char>, id: ItemId|
        0 <= i < s.len() && s[i].resources.contains_key(key) && p.item_categories.contains_key(key)
            && p.item_categories[key].has_member(id) && t == s.update(
            i,
            #[trigger] rebound(s[i], key, id),
        )
}

/// `t` comes from `s` by a swap: two different assignments that both bind a
/// resource under the same name exchange what they bind under it.
pub open spec fn is_swap(s: Seq<AssignmentView>, t: Seq<AssignmentView>) -> bool {
    exists|i: int, j: int, key: Seq<char>|
        0 <= i < s.len() && 0 <= j < s.len() && i != j && s[i].resources.contains_key(key)
            && s[j].resources.contains_key(key) && t == #[trigger] exchanged(s, i, j, key)
}

/// The schedule `s` after the assignments at `i` and `j` have exchanged what
/// they bind under `key`.
pub open spec fn exchanged(s: Seq<AssignmentView>, i: int, j: int, key: Seq<char>) -> Seq<AssignmentView> {
    s.update(i, rebound(s[i], key, s[j].resources[key])).update(
        j,
        rebound(s[j], key, s[i].resources[key]),
    )
}

/// `t` is a neighbour of `s`: `s` itself, or `s` after one reassignment or
/// one swap.
pub open spec fn is_neighbor(s: Seq<AssignmentView>, p: ProblemView, t: Seq<AssignmentView>) -> bool {
    t == s || is_reassignment(s, p, t) || is_swap(s, t)
}

/// A neighbour has the assignments of the schedule it comes from, position
/// by position, with the same tasks and the same resource names; and where
/// every resource id of that schedule exists in its category, so does every
/// resource id of the neighbour.
pub proof fn lemma_neighbor_keeps_shape(s: Seq<AssignmentView>, p: ProblemView, t: Seq<AssignmentView>)
    requires
        is_neighbor(s, p, t),
    ensures
        t.len() == s.len(),
        forall|i: int|
            0 <= i < s.len() ==> (#[trigger] t[i]).task_id == s[i].task_id && t[i].task_item_name
                == s[i].task_item_name && t[i].resources.dom() == s[i].resources.dom(),
        resources_exist(s, p) ==> resources_exist(t, p),
        refers_into(s, p) ==> refers_into(t, p),
{
    if t == s {
        // Nothing has changed.
    } else if is_reassignment(s, p, t) {
        assert forall|k: int| 0 <= k < s.len() implies (#[trigger] t[k]).resources.dom()
            == s[k].resources.dom() by {}
        if resources_exist(s, p) {
            assert forall|k: int| 0 <= k < t.len() implies (#[trigger] t[k]).resources_exist(p) by {}
        }
        if refers_into(s, p) {
            assert forall|k: int| 0 <= k < t.len() implies (#[trigger] t[k]).refers_into(p) by {}
        }
    } else {
        assert forall|k: int| 0 <= k < s.len() implies (#[trigger] t[k]).resources.dom()
            == s[k].resources.dom() by {}
        if resources_exist(s, p) {
            assert forall|k: int| 0 <= k < t.len() implies (#[trigger] t[k]).resources_exist(p) by {}
        }
        if refers_into(s, p) {
            assert forall|k: int| 0 <= k < t.len() implies (#[trigger] t[k]).refers_into(p) by {}
        }
    }
}

/// Draws a member of the category `key`, where the problem has such a
/// category and it has members.
fn draw_member(problem_data: &ProblemData, key: &str, rng: &mut StdRng) -> (member: Option<ItemId>)
    ensures
        match member {
            Some(id) => problem_data@.item_categories.contains_key(key@)
                && problem_data@.item_categories[key@].has_member(id),
            None => !problem_data@.item_categories.contains_key(key@)
                || problem_data@.item_categories[key@].members.len() == 0,
        },
{
    match problem_data.item_categories.get(key) {
        Some(item) => match pick(item.members.as_slice(), rng) {
            Some(new_member) => {
                proof {
                    let k = choose|k: int| 0 <= k < item.members@.len() && item.members@[k] == *new_member;
                    assert(item@.members[k] == new_member@);
                }
                Some(new_member.id)
            },
            None => None,
        },
        None => None,
    }
}

/// Lets the assignments at `first` and `second` exchange what they bind
/// under `key`, where both bind a resource under it; else the schedule stays
/// as it is, as it does where `first` and `second` are the same.
pub fn swap(schedule: &mut Schedule, first: usize, second: usize, key: &String)
    requires
        first < old(schedule)@.len(),
        second < old(schedule)@.len(),
    ensures
        final(schedule)@ == (if old(schedule)@[first as int].resources.contains_key(key@) && old(
            schedule,
        )@[second as int].resources.contains_key(key@) {
            exchanged(old(schedule)@, first as int, second as int, key@)
        } else {
            old(schedule)@
        }),
{
    let r1 = match schedule.assignments[first].resources.get(key.as_str()) {
        Some(id) => Some(*id),
        None => None,
    };
    let r2 = match schedule.assignments[second].resources.get(key.as_str()) {
        Some(id) => Some(*id),
        None => None,
    };
    match (r1, r2) {
        (Some(id1), Some(id2)) => {
            let ghost before = schedule@;
            set_resource(schedule, first, key.clone(), id2);
            set_resource(schedule, second, key.clone(), id1);
            proof {
                if first == second {
                    let a = before[first as int];
                    assert(a.resources.insert(key@, id2).insert(key@, id1) =~= a.resources.insert(
                        key@,
                        id1,
                    ));
                }
            }
        },
        _ => {},
    }
}

/// The neighbour that given draws lead to. Where a reassignment was drawn,
/// the assignment at `first` binds the resource `key` to the drawn member,
/// if one was drawn. Where a swap was drawn, the assignments at `first` and
/// `second`, if they are different and both bind a resource under `key`,
/// exchange what they bind under it. In every other case the neighbour is
/// the schedule itself.
pub open spec fn neighbor_of(
    s: Seq<AssignmentView>,
    reassign_drawn: bool,
    first: int,
    second: int,
    key: Seq<char>,
    member: Option<ItemId>,
) -> Seq<AssignmentView> {
    if reassign_drawn {
        match member {
            Some(id) => s.update(first, rebound(s[first], key, id)),
            None => s,
        }
    } else if first != second && s[first].resources.contains_key(key) && s[second].resources.contains_key(
        key,
    ) {
        exchanged(s, first, second, key)
    } else {
        s
    }
}

/// The neighbour of the schedule that the given draws lead to: the kind of
/// move, the positions of one or two assignments, the name of a resource
/// and, for a reassignment, the member to bind, if one could be drawn.
pub fn neighbor_by(
    schedule: &Schedule,
    reassign_drawn: bool,
    first: usize,
    second: usize,
    key: &String,
    member: Option<ItemId>,
) -> (neighbor: Schedule)
    requires
        first < schedule@.len(),
        second < schedule@.len(),
    ensures
        neighbor@ == neighbor_of(schedule@, reassign_drawn, first as int, second as int, key@, member),
{
    let mut new_schedule = schedule.clone();
    if reassign_drawn {
        if let Some(id) = member {
            set_resource(&mut new_schedule, first, key.clone(), id);
        }
    } else if first != second {
        swap(&mut new_schedule, first, second, key);
    }
    new_schedule
}

/// A neighbour of the schedule, by one random move.
///
/// With probability 7 in 10 the move is a reassignment: of a random
/// assignment, a random resource is bound anew to a random member of its
/// category, if the problem has that category and it has members. Otherwise
/// the move is a swap: two random assignments, if they are different and
/// both bind the resource drawn from the first, exchange what they bind
/// under it. A move that cannot be made leaves a copy of the schedule, as
/// does an empty schedule, and a swap in a schedule of one assignment.
/// Which neighbour the draws lead to is what [`neighbor_by`] states.
pub fn get_neighbor(schedule: &Schedule, problem_data: &ProblemData, rng: &mut StdRng) -> (neighbor: Schedule)
    ensures
        is_neighbor(schedule@, problem_data@, neighbor@),
        neighbor@.len() == schedule@.len(),
        forall|i: int|
            0 <= i < schedule@.len() ==> (#[trigger] neighbor@[i]).task_id == schedule@[i].task_id
                && neighbor@[i].task_item_name == schedule@[i].task_item_name
                && neighbor@[i].resources.dom() == schedule@[i].resources.dom(),
        resources_exist(schedule@, problem_data@) ==> resources_exist(neighbor@, problem_data@),
        refers_into(schedule@, problem_data@) ==> refers_into(neighbor@, problem_data@),
        schedule@.len() == 0 ==> neighbor@ == schedule@,
{
    let n = schedule.assignments.len();
    let neighbor = if n == 0 {
        schedule.clone()
    } else if random_ratio(rng, 7, 10) {
        let idx = random_index(rng, n);
        let resource_names = schedule.assignments[idx].resources.keys();
        match pick(resource_names.as_slice(), rng) {
            Some(resource_name) => {
                let member = draw_member(problem_data, resource_name.as_str(), rng);
                proof {
                    schedule.assignments@[idx as int].resources.lemma_wf();
                    assert(schedule@[idx as int].resources.contains_key(resource_name@));
                }
                neighbor_by(schedule, true, idx, idx, resource_name, member)
            },
            None => schedule.clone(),
        }
    } else if n > 1 {
        let idx1 = random_index(rng, n);
        let idx2 = random_index(rng, n);
        if idx1 != idx2 {
            let resource_names = schedule.assignments[idx1].resources.keys();
            match pick(resource_names.as_slice(), rng) {
                Some(resource_name) => neighbor_by(schedule, false, idx1, idx2, resource_name, None),
                None => schedule.clone(),
            }
        } else {
            schedule.clone()
        }
    } else {
        schedule.clone()
    };
    proof {
        lemma_neighbor_keeps_shape(schedule@, problem_data@, neighbor@);
    }
    neighbor
}

/// The name under which the problem holds its first task category at or
/// after position `from` of the order of its categories, if there is one.
pub open spec fn task_category_from(p: ProblemView, from: int) -> Option<Seq<char>>
    decreases p.names.len() - from,
{
    if from < 0 || from >= p.names.len() {
        None
    } else if p.item_categories[p.names[from]].item_set_type == SetType::B_Set {
        Some(p.names[from])
    } else {
        task_category_from(p, from + 1)
    }
}

/// The name under which the problem holds the task category that schedules
/// are built for: the first one in the order of its categories.
pub open spec fn task_category(p: ProblemView) -> Option<Seq<char>> {
    task_category_from(p, 0)
}

/// The resources bind one member of every resource category that has
/// members, under the category's name, and nothing else.
pub open spec fn one_of_each(p: ProblemView, resources: Map<Seq<char>, ItemId>) -> bool {
    &&& forall|k: Seq<char>| #[trigger]
        p.item_categories.contains_key(k) && p.item_categories[k].item_set_type == SetType::E_Set
            && p.item_categories[k].members.len() > 0 ==> resources.contains_key(
            p.item_categories[k].name,
        )
    &&& forall|key: Seq<char>| #[trigger]
        resources.contains_key(key) ==> exists|k: Seq<char>| #[trigger]
            p.item_categories.contains_key(k) && p.item_categories[k].item_set_type
                == SetType::E_Set && p.item_categories[k].name == key
                && p.item_categories[k].has_member(resources[key])
}

/// Draws one member of every resource category that has members.
fn draw_resources(problem_data: &ProblemData, rng: &mut StdRng) -> (resources: NameMap<ItemId>)
    ensures
        one_of_each(problem_data@, resources@),
{
    let categories = &problem_data.item_categories;
    let n = categories.len();
    let ghost p = problem_data@;
    let mut resources: NameMap<ItemId> = NameMap::new();
    let mut e: usize = 0;
    while e < n
        invariant
            e <= n,
            n == categories.names().len(),
            categories == &problem_data.item_categories,
            p == problem_data@,
            forall|j: int|
                0 <= j < e && p.item_categories[categories.names()[j]].item_set_type == SetType::E_Set
                    && p.item_categories[categories.names()[j]].members.len() > 0
                    ==> resources@.contains_key(#[trigger] p.item_categories[categories.names()[j]].name),
            forall|key: Seq<char>| #[trigger]
                resources@.contains_key(key) ==> exists|k: Seq<char>| #[trigger]
                    p.item_categories.contains_key(k) && p.item_categories[k].item_set_type
                        == SetType::E_Set && p.item_categories[k].name == key
                        && p.item_categories[k].has_member(resources@[key]),
        decreases n - e,
    {
        let e_item = categories.value_at(e);
        let ghost k = categories.names()[e as int];
        if e_item.item_set_type == SetType::E_Set {
            if let Some(member) = pick(e_item.members.as_slice(), rng) {
                proof {
                    let m = choose|m: int| 0 <= m < e_item.members@.len() && e_item.members@[m] == *member;
                    assert(e_item@.members[m] == member@);
                }
                resources.insert(e_item.name.clone(), member.id);
                assert forall|key: Seq<char>| #[trigger] resources@.contains_key(key) implies exists|
                    k2: Seq<char>,
                | #[trigger]
                    p.item_categories.contains_key(k2) && p.item_categories[k2].item_set_type
                        == SetType::E_Set && p.item_categories[k2].name == key
                        && p.item_categories[k2].has_member(resources@[key]) by {
                    if key == e_item.name@ {
                        assert(p.item_categories.contains_key(k));
                    }
                }
            }
        }
        e += 1;
    }
    proof {
        assert forall|k: Seq<char>| #[trigger]
            p.item_categories.contains_key(k) && p.item_categories[k].item_set_type == SetType::E_Set
                && p.item_categories[k].members.len() > 0 implies resources@.contains_key(
            p.item_categories[k].name,
        ) by {}
    }
    resources
}

/// In a problem whose categories are stored under their own names, an
/// assignment of a task of the task category that binds one member of every
/// resource category refers to existing members only.
pub proof fn lemma_one_of_each_refers_into(p: ProblemView, a: AssignmentView)
    requires
        p.keyed_by_name(),
        task_category(p) is Some,
        p.item_categories.contains_key(task_category(p)->0),
        a.task_item_name == p.item_categories[task_category(p)->0].name,
        p.item_categories[task_category(p)->0].has_member(a.task_id),
        one_of_each(p, a.resources),
    ensures
        a.refers_into(p),
{
    lemma_task_category(p, 0);
    assert forall|key: Seq<char>| #[trigger] a.resources.contains_key(key) implies p.item_categories.contains_key(
        key,
    ) && p.item_categories[key].has_member(a.resources[key]) && p.item_categories[key].item_set_type
        == SetType::E_Set by {}
}

/// The task category, where there is one, stands at a position of the
/// order of the categories, and holds tasks.
pub proof fn lemma_task_category(p: ProblemView, from: int)
    requires
        0 <= from,
    ensures
        match task_category_from(p, from) {
            Some(name) => p.item_categories[name].item_set_type == SetType::B_Set && exists|i: int|
                from <= i < p.names.len() && #[trigger] p.names[i] == name,
            None => true,
        },
    decreases p.names.len() - from,
{
    if from < p.names.len() && p.item_categories[p.names[from]].item_set_type != SetType::B_Set {
        lemma_task_category(p, from + 1);
    }
}

/// A random first schedule.
///
/// The tasks are the members of the first category of the problem, in the
/// order of its categories, that holds tasks. Each of them, in their order,
/// gets one assignment, which binds one random member of every resource
/// category that has members, under the category's name. Without a task
/// category the schedule is empty. Where every category is stored under its
/// own name, the schedule refers to existing members only.
pub fn create_random_schedule(problem_data: &ProblemData, rng: &mut StdRng) -> (schedule: Schedule)
    ensures
        problem_data@.keyed_by_name() ==> refers_into(schedule@, problem_data@),
        match task_category(problem_data@) {
            None => schedule@.len() == 0,
            Some(name) => {
                let tasks = problem_data@.item_categories[name];
                &&& schedule@.len() == tasks.members.len()
                &&& forall|i: int|
                    0 <= i < schedule@.len() ==> (#[trigger] schedule@[i]).task_id == tasks.members[i].id
                        && schedule@[i].task_item_name == tasks.name && one_of_each(
                        problem_data@,
                        schedule@[i].resources,
                    )
            },
        },
{
    let categories = &problem_data.item_categories;
    let n = categories.len();
    let ghost p = problem_data@;
    let mut assignments: Vec<Assignment> = Vec::new();
    let mut t: usize = 0;
    while t < n
        invariant
            t <= n,
            n == categories.names().len(),
            categories == &problem_data.item_categories,
            p == problem_data@,
            task_category(p) == task_category_from(p, t as int),
            assignments@.len() == 0,
        decreases n - t,
    {
        let item = categories.value_at(t);
        if item.item_set_type == SetType::B_Set {
            let ghost tasks = item@;
            let mut c: usize = 0;
            while c < item.members.len()
                invariant
                    c <= item.members@.len(),
                    tasks == item@,
                    p == problem_data@,
                    assignments@.len() == c,
                    forall|i: int|
                        0 <= i < c ==> (#[trigger] assignments@[i])@.task_id == tasks.members[i].id
                            && assignments@[i]@.task_item_name == tasks.name && one_of_each(
                            p,
                            assignments@[i]@.resources,
                        ),
                decreases item.members@.len() - c,
            {
                let course = &item.members[c];
                let resources = draw_resources(problem_data, rng);
                assignments.push(
                    Assignment { task_id: course.id, task_item_name: item.name.clone(), resources },
                );
                c += 1;
            }
            let schedule = Schedule::new(assignments);
            proof {
                if p.keyed_by_name() {
                    assert forall|i: int| 0 <= i < schedule@.len() implies (#[trigger] schedule@[i]).refers_into(
                        p,
                    ) by {
                        lemma_one_of_each_refers_into(p, schedule@[i]);
                    }
                }
            }
            return schedule;
        }
        t += 1;
    }
    Schedule::new(assignments)
}

} // verus!
