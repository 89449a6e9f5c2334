//! The shapes in which a problem and its parts are exchanged.

use crate::domain::{Constraint, ItemId, Member, Schema, SetType};
use vstd::prelude::*;

verus! {

/// What is needed to create a category.
#[derive(Debug)]
pub struct CreateItemRequest {
    pub name: String,
    pub item_set_type: SetType,
    pub schema: Schema,
}

/// A member to add to the category `item_name`.
#[derive(Debug)]
pub struct AddMemberRequest {
    pub item_name: String,
    pub member: Member,
}

/// A constraint to create.
#[derive(Debug)]
pub struct CreateConstraintRequest {
    pub constraint: Constraint,
}

/// The names of all categories.
#[derive(Debug)]
pub struct GetItemsResponse {
    pub items: Vec<String>,
}

/// The members of the category `item_name`, in short.
#[derive(Debug)]
pub struct GetMembersResponse {
    pub item_name: String,
    pub members: Vec<MemberSummary>,
}

/// A member in short: its id and the name to show for it.
#[derive(Debug)]
pub struct MemberSummary {
    pub id: ItemId,
    pub display_name: String,
}

/// The field keys of the category `item_name`.
#[derive(Debug)]
pub struct GetFieldsResponse {
    pub item_name: String,
    pub fields: Vec<String>,
}

/// A whole problem as it is written to and read from a file: its
/// categories and its constraints.
#[derive(Debug)]
pub struct ProblemDataFile {
    pub items: Vec<ItemData>,
    pub constraints: Vec<Constraint>,
}

/// A category as it stands in a [`ProblemDataFile`].
#[derive(Debug)]
pub struct ItemData {
    pub name: String,
    pub item_set_type: SetType,
    pub schema: Schema,
    pub members: Vec<Member>,
}

} // verus!
