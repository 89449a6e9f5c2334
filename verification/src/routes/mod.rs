//! The operations on the stored problem and its constraints.

pub mod constraints;
pub mod items;
pub mod members;
pub mod solve;

pub use constraints::{
    create_constraint, delete_constraint, list_constraints, update_constraint,
    ConstraintsListResponse, CreateConstraintRequest,
};
pub use items::{
    create_item, delete_item, list_items, update_item, CreateItemRequest, ItemResponse,
    ItemsListResponse, UpdateItemRequest,
};
pub use members::{
    add_member, delete_member, list_members, update_member, AddMemberRequest, MemberResponse,
    MembersListResponse,
};
pub use solve::{create_random_schedule, SolveResponse};
