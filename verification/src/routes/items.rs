//! Creating, listing, changing and deleting item categories.

use crate::api_error::ApiError;
use crate::domain::{Item, ItemView, ProblemData, Schema, SetType};
use vstd::prelude::*;

verus! {

/// What is needed to create a category.
#[derive(Debug)]
pub struct CreateItemRequest {
    pub name: String,
    pub item_set_type: SetType,
    pub schema: Schema,
}

/// The summary of a category.
#[derive(Debug)]
pub struct ItemResponse {
    pub name: String,
    pub item_set_type: SetType,
    pub member_count: usize,
}

/// The summaries of all categories.
#[derive(Debug)]
pub struct ItemsListResponse {
    pub items: Vec<ItemResponse>,
}

/// What can be changed of a category.
#[derive(Debug)]
pub struct UpdateItemRequest {
    pub item_set_type: SetType,
    pub schema: Schema,
}

/// Creates a category without members under the requested name. A category
/// already stored under that name is replaced and keeps its place in the
/// order.
pub fn create_item(problem_data: &mut ProblemData, request: CreateItemRequest)
    ensures
        final(problem_data)@.item_categories == old(problem_data)@.item_categories.insert(
            request.name@,
            ItemView {
                name: request.name@,
                item_set_type: request.item_set_type,
                members: Seq::empty(),
                schema: request.schema@,
            },
        ),
        final(problem_data)@.names == (if old(problem_data)@.item_categories.contains_key(
            request.name@,
        ) {
            old(problem_data)@.names
        } else {
            old(problem_data)@.names.push(request.name@)
        }),
{
    let item = Item {
        name: request.name.clone(),
        item_set_type: request.item_set_type,
        members: Vec::new(),
        schema: request.schema,
    };
    assert(item@.members =~= Seq::empty());
    problem_data.item_categories.insert(request.name, item);
}

/// The summaries of the categories, in their order.
pub fn list_items(problem_data: &ProblemData) -> (r: ItemsListResponse)
    ensures
        r.items@.len() == problem_data@.names.len(),
        forall|i: int|
            0 <= i < r.items@.len() ==> {
                let item = problem_data@.item_categories[problem_data@.names[i]];
                &&& (#[trigger] r.items@[i]).name@ == item.name
                &&& r.items@[i].item_set_type == item.item_set_type
                &&& r.items@[i].member_count == item.members.len()
            },
{
    let categories = &problem_data.item_categories;
    let n = categories.len();
    let mut items: Vec<ItemResponse> = Vec::new();
    let mut i: usize = 0;
    while i < n
        invariant
            i <= n,
            n == categories.names().len(),
            categories == &problem_data.item_categories,
            items@.len() == i,
            forall|j: int|
                0 <= j < i ==> {
                    let item = problem_data@.item_categories[problem_data@.names[j]];
                    &&& (#[trigger] items@[j]).name@ == item.name
                    &&& items@[j].item_set_type == item.item_set_type
                    &&& items@[j].member_count == item.members.len()
                },
        decreases n - i,
    {
        let item = categories.value_at(i);
        items.push(
            ItemResponse {
                name: item.name.clone(),
                item_set_type: item.item_set_type,
                member_count: item.members.len(),
            },
        );
        i += 1;
    }
    ItemsListResponse { items }
}

/// Changes the set type and the schema of the category `item_name`; its name
/// and its members stay. Fails with `ItemNotFound`, and changes nothing, if
/// there is no such category.
pub fn update_item(problem_data: &mut ProblemData, item_name: &str, request: UpdateItemRequest) -> (r: Result<
    (),
    ApiError,
>)
    ensures
        match r {
            Ok(_) => {
                let before = old(problem_data)@.item_categories[item_name@];
                &&& old(problem_data)@.item_categories.contains_key(item_name@)
                &&& final(problem_data)@.item_categories == old(problem_data)@.item_categories.insert(
                    item_name@,
                    ItemView {
                        name: before.name,
                        item_set_type: request.item_set_type,
                        members: before.members,
                        schema: request.schema@,
                    },
                )
                &&& final(problem_data)@.names == old(problem_data)@.names
            },
            Err(e) => e == ApiError::ItemNotFound && !old(problem_data)@.item_categories.contains_key(
                item_name@,
            ) && final(problem_data)@ == old(problem_data)@,
        },
{
    match problem_data.item_categories.get_mut(item_name) {
        Some(item) => {
            item.item_set_type = request.item_set_type;
            item.schema = request.schema;
            Ok(())
        },
        None => {
            Err(ApiError::ItemNotFound)
        },
    }
}

/// Deletes the category `item_name`; the others keep their order. Fails
/// with `ItemNotFound`, and changes nothing, if there is no such category.
pub fn delete_item(problem_data: &mut ProblemData, item_name: &str) -> (r: Result<(), ApiError>)
    ensures
        match r {
            Ok(_) => {
                &&& old(problem_data)@.item_categories.contains_key(item_name@)
                &&& final(problem_data)@.item_categories == old(problem_data)@.item_categories.remove(
                    item_name@,
                )
                &&& final(problem_data)@.names == old(problem_data)@.names.remove(
                    old(problem_data)@.names.index_of(item_name@),
                )
            },
            Err(e) => e == ApiError::ItemNotFound && !old(problem_data)@.item_categories.contains_key(
                item_name@,
            ) && final(problem_data)@ == old(problem_data)@,
        },
{
    let ghost before = problem_data@;
    match problem_data.item_categories.remove(item_name) {
        Some(_) => {
            Ok(())
        },
        None => {
            assert(problem_data@.item_categories =~= before.item_categories);
            Err(ApiError::ItemNotFound)
        },
    }
}

} // verus!
