//! Creating, listing, changing and deleting constraints.

use crate::api_error::ApiError;
use crate::domain::constraint::constraint_views;
use crate::domain::{Constraint, ConstraintView};
use crate::sequences::{first_where, lemma_first_where, lemma_first_where_found};
use crate::text::str_eq;
use vstd::prelude::*;

verus! {

/// A constraint to create, or to put in the place of another.
#[derive(Debug)]
pub struct CreateConstraintRequest {
    pub constraint: Constraint,
}

/// All constraints.
#[derive(Debug)]
pub struct ConstraintsListResponse {
    pub constraints: Vec<Constraint>,
}

/// The position of the first constraint with this name; the number of
/// constraints if there is none.
pub open spec fn first_named(constraints: Seq<ConstraintView>, name: Seq<char>) -> int {
    first_where(constraints, |c: ConstraintView| c.name == name)
}

/// Whether some constraint has this name.
pub open spec fn has_named(constraints: Seq<ConstraintView>, name: Seq<char>) -> bool {
    exists|i: int| 0 <= i < constraints.len() && (#[trigger] constraints[i]).name == name
}

/// Adds the constraint at the end.
pub fn create_constraint(constraints: &mut Vec<Constraint>, request: CreateConstraintRequest)
    ensures
        constraint_views(final(constraints)@) == constraint_views(old(constraints)@).push(
            request.constraint@,
        ),
{
    constraints.push(request.constraint);
}

/// A copy of all constraints, in their order.
pub fn list_constraints(constraints: &Vec<Constraint>) -> (r: ConstraintsListResponse)
    ensures
        constraint_views(r.constraints@) == constraint_views(constraints@),
{
    let mut copies: Vec<Constraint> = Vec::new();
    let mut i: usize = 0;
    while i < constraints.len()
        invariant
            i <= constraints@.len(),
            copies@.len() == i,
            forall|j: int| 0 <= j < i ==> (#[trigger] copies@[j])@ == constraints@[j]@,
        decreases constraints@.len() - i,
    {
        copies.push(constraints[i].clone());
        i += 1;
    }
    ConstraintsListResponse { constraints: copies }
}

/// The position of the first constraint named `name`, if there is one.
fn position_named(constraints: &Vec<Constraint>, name: &str) -> (r: Option<usize>)
    ensures
        match r {
            Some(k) => k == first_named(constraint_views(constraints@), name@) && k
                < constraints@.len(),
            None => first_named(constraint_views(constraints@), name@) == constraints@.len(),
        },
        r is Some <==> has_named(constraint_views(constraints@), name@),
{
    let ghost views = constraint_views(constraints@);
    let ghost named = |c: ConstraintView| c.name == name@;
    proof {
        lemma_first_where_found(views, named);
    }
    let mut i: usize = 0;
    while i < constraints.len()
        invariant
            i <= constraints@.len(),
            views == constraint_views(constraints@),
            named == |c: ConstraintView| c.name == name@,
            forall|j: int| 0 <= j < i ==> !named(#[trigger] views[j]),
        decreases constraints@.len() - i,
    {
        assert(views[i as int] == constraints@[i as int]@);
        if str_eq(constraints[i].name.as_str(), name) {
            proof {
                lemma_first_where(views, named, i as int);
            }
            return Some(i);
        }
        i += 1;
    }
    proof {
        lemma_first_where(views, named, i as int);
    }
    None
}

/// Puts the requested constraint in the place of the first constraint named
/// `name`. Fails with `ItemNotFound`, and changes nothing, if no constraint
/// has that name.
pub fn update_constraint(constraints: &mut Vec<Constraint>, name: &str, request: CreateConstraintRequest) -> (r:
    Result<(), ApiError>)
    ensures
        match r {
            Ok(_) => has_named(constraint_views(old(constraints)@), name@) && constraint_views(
                final(constraints)@,
            ) == constraint_views(old(constraints)@).update(
                first_named(constraint_views(old(constraints)@), name@),
                request.constraint@,
            ),
            Err(e) => e == ApiError::ItemNotFound && !has_named(
                constraint_views(old(constraints)@),
                name@,
            ) && final(constraints)@ == old(constraints)@,
        },
{
    match position_named(constraints, name) {
        Some(k) => {
            constraints.set(k, request.constraint);
            Ok(())
        },
        None => Err(ApiError::ItemNotFound),
    }
}

/// Deletes every constraint named `name`; the others keep their order.
/// Fails with `ItemNotFound`, and changes nothing, if no constraint has
/// that name.
pub fn delete_constraint(constraints: &mut Vec<Constraint>, name: &str) -> (r: Result<(), ApiError>)
    ensures
        match r {
            Ok(_) => has_named(constraint_views(old(constraints)@), name@) && constraint_views(
                final(constraints)@,
            ) == constraint_views(old(constraints)@).filter(|c: ConstraintView| c.name != name@),
            Err(e) => e == ApiError::ItemNotFound && !has_named(
                constraint_views(old(constraints)@),
                name@,
            ) && final(constraints)@ == old(constraints)@,
        },
{
    if position_named(constraints, name).is_none() {
        return Err(ApiError::ItemNotFound);
    }
    let ghost before = constraint_views(constraints@);
    let ghost keep = |c: ConstraintView| c.name != name@;
    let mut i: usize = 0;
    let ghost mut done: int = 0;
    proof {
        reveal(Seq::filter);
    }
    while i < constraints.len()
        invariant
            0 <= done <= before.len(),
            i <= constraints@.len(),
            keep == |c: ConstraintView| c.name != name@,
            i == before.take(done).filter(keep).len(),
            constraint_views(constraints@) == before.take(done).filter(keep) + before.skip(done),
        decreases constraints@.len() - i,
    {
        let ghost now = constraint_views(constraints@);
        let ghost kept = before.take(done).filter(keep);
        proof {
            reveal(Seq::filter);
            assert(now[i as int] == constraints@[i as int]@);
            assert(before.take(done + 1).drop_last() =~= before.take(done));
        }
        if str_eq(constraints[i].name.as_str(), name) {
            constraints.remove(i);
            proof {
                assert(now.remove(i as int) =~= kept + before.skip(done + 1));
                done = done + 1;
            }
        } else {
            proof {
                done = done + 1;
            }
            i += 1;
        }
    }
    Ok(())
}

} // verus!
