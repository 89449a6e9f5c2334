//! Adding, listing, changing and deleting the members of a category.

use crate::api_error::ApiError;
use crate::domain::item::first_with_id;
use crate::domain::{ItemId, ItemView, Member, MemberView, ProblemData, Value};
use crate::name_map::NameMap;
use vstd::prelude::*;

verus! {

/// A member to add, or the new fields of a member to change.
#[derive(Debug)]
pub struct AddMemberRequest {
    pub id: ItemId,
    pub fields: NameMap<Value>,
}

impl View for AddMemberRequest {
    type V = MemberView;

    open spec fn view(&self) -> MemberView {
        MemberView { id: self.id, fields: self.fields@.map_values(|v: Value| v@) }
    }
}

/// A member of a category, as it is listed.
#[derive(Debug)]
pub struct MemberResponse {
    pub id: ItemId,
    pub fields: NameMap<Value>,
}

impl View for MemberResponse {
    type V = MemberView;

    open spec fn view(&self) -> MemberView {
        MemberView { id: self.id, fields: self.fields@.map_values(|v: Value| v@) }
    }
}

/// The members of a category.
#[derive(Debug)]
pub struct MembersListResponse {
    pub members: Vec<MemberResponse>,
}

/// The category `item` with other members.
pub open spec fn with_members(item: ItemView, members: Seq<MemberView>) -> ItemView {
    ItemView { name: item.name, item_set_type: item.item_set_type, members, schema: item.schema }
}

/// Adds a member at the end of the category `item_name`. Fails with
/// `ItemNotFound`, and changes nothing, if there is no such category.
pub fn add_member(problem_data: &mut ProblemData, item_name: &str, request: AddMemberRequest) -> (r: Result<
    (),
    ApiError,
>)
    ensures
        match r {
            Ok(_) => {
                let before = old(problem_data)@.item_categories[item_name@];
                &&& old(problem_data)@.item_categories.contains_key(item_name@)
                &&& final(problem_data)@.item_categories == old(problem_data)@.item_categories.insert(
                    item_name@,
                    with_members(before, before.members.push(request@)),
                )
                &&& final(problem_data)@.names == old(problem_data)@.names
            },
            Err(e) => e == ApiError::ItemNotFound && !old(problem_data)@.item_categories.contains_key(
                item_name@,
            ) && final(problem_data)@ == old(problem_data)@,
        },
{
    match problem_data.item_categories.get_mut(item_name) {
        Some(item) => {
            let ghost stored = item@;
            let member = Member { id: request.id, fields: request.fields };
            item.members.push(member);
            assert(item@ == with_members(stored, stored.members.push(request@))) by {
                assert(item@.members =~= stored.members.push(request@));
            }
            Ok(())
        },
        None => {
            Err(ApiError::ItemNotFound)
        },
    }
}

/// The members of the category `item_name`, in their order. Fails with
/// `ItemNotFound` if there is no such category.
pub fn list_members(problem_data: &ProblemData, item_name: &str) -> (r: Result<MembersListResponse, ApiError>)
    ensures
        match r {
            Ok(list) => problem_data@.item_categories.contains_key(item_name@) && list.members@.map_values(
                |m: MemberResponse| m@,
            ) == problem_data@.item_categories[item_name@].members,
            Err(e) => e == ApiError::ItemNotFound && !problem_data@.item_categories.contains_key(
                item_name@,
            ),
        },
{
    match problem_data.item_categories.get(item_name) {
        Some(item) => {
            let mut members: Vec<MemberResponse> = Vec::new();
            let mut i: usize = 0;
            while i < item.members.len()
                invariant
                    i <= item.members@.len(),
                    members@.len() == i,
                    forall|j: int| 0 <= j < i ==> (#[trigger] members@[j])@ == item.members@[j]@,
                decreases item.members@.len() - i,
            {
                let m = item.members[i].clone();
                members.push(MemberResponse { id: m.id, fields: m.fields });
                i += 1;
            }
            Ok(MembersListResponse { members })
        },
        None => Err(ApiError::ItemNotFound),
    }
}

/// Gives the first member with the id `member_id` in the category
/// `item_name` the requested fields; its id stays. Fails with
/// `ItemNotFound` if there is no such category, with `MemberNotFound` if
/// the category has no such member, and changes nothing then.
pub fn update_member(
    problem_data: &mut ProblemData,
    item_name: &str,
    member_id: u32,
    request: AddMemberRequest,
) -> (r: Result<(), ApiError>)
    ensures
        match r {
            Ok(_) => {
                let before = old(problem_data)@.item_categories[item_name@];
                let k = first_with_id(before.members, ItemId(member_id));
                &&& old(problem_data)@.item_categories.contains_key(item_name@)
                &&& before.has_member(ItemId(member_id))
                &&& final(problem_data)@.item_categories == old(problem_data)@.item_categories.insert(
                    item_name@,
                    with_members(
                        before,
                        before.members.update(
                            k,
                            MemberView { id: ItemId(member_id), fields: request@.fields },
                        ),
                    ),
                )
                &&& final(problem_data)@.names == old(problem_data)@.names
            },
            Err(e) => {
                &&& final(problem_data)@ == old(problem_data)@
                &&& e == ApiError::ItemNotFound || e == ApiError::MemberNotFound
                &&& e == ApiError::ItemNotFound <==> !old(problem_data)@.item_categories.contains_key(
                    item_name@,
                )
                &&& e == ApiError::MemberNotFound ==> !old(problem_data)@.item_categories[item_name@].has_member(
                    ItemId(member_id),
                )
            },
        },
{
    let ghost before = problem_data@;
    match problem_data.item_categories.get_mut(item_name) {
        Some(item) => {
            let ghost stored = item@;
            match item.position_of(ItemId(member_id)) {
                Some(k) => {
                    item.members[k].fields = request.fields;
                    let ghost changed = stored.members.update(
                        k as int,
                        MemberView { id: ItemId(member_id), fields: request@.fields },
                    );
                    assert(item@ == with_members(stored, changed)) by {
                        assert(item@.members =~= changed);
                    }
                    Ok(())
                },
                None => {
                    assert(problem_data@.item_categories =~= before.item_categories);
                    Err(ApiError::MemberNotFound)
                },
            }
        },
        None => {
            Err(ApiError::ItemNotFound)
        },
    }
}

/// Takes every member with the given id out of the list; the others keep
/// their order.
fn remove_members(members: &mut Vec<Member>, id: ItemId)
    ensures
        final(members)@.map_values(|m: Member| m@) == old(members)@.map_values(|m: Member| m@).filter(
            |m: MemberView| m.id != id,
        ),
{
    let ghost before = members@.map_values(|m: Member| m@);
    let ghost keep = |m: MemberView| m.id != id;
    let mut i: usize = 0;
    let ghost mut done: int = 0;
    proof {
        reveal(Seq::filter);
    }
    while i < members.len()
        invariant
            0 <= done <= before.len(),
            i <= members@.len(),
            keep == |m: MemberView| m.id != id,
            i == before.take(done).filter(keep).len(),
            members@.map_values(|m: Member| m@) == before.take(done).filter(keep) + before.skip(done),
        decreases members@.len() - i,
    {
        let ghost now = members@.map_values(|m: Member| m@);
        proof {
            reveal(Seq::filter);
            assert(now[i as int] == before.skip(done)[0]);
            assert(before.take(done + 1).drop_last() =~= before.take(done));
        }
        if members[i].id == id {
            members.remove(i);
            proof {
                let kept = before.take(done).filter(keep);
                assert(now.remove(i as int) =~= kept + before.skip(done + 1));
                done = done + 1;
            }
        } else {
            proof {
                done = done + 1;
            }
            i += 1;
        }
    }
}

/// Deletes every member with the id `member_id` from the category
/// `item_name`; the others keep their order. Fails with `ItemNotFound` if
/// there is no such category, with `MemberNotFound` if the category has no
/// such member, and changes nothing then.
pub fn delete_member(problem_data: &mut ProblemData, item_name: &str, member_id: u32) -> (r: Result<
    (),
    ApiError,
>)
    ensures
        match r {
            Ok(_) => {
                let before = old(problem_data)@.item_categories[item_name@];
                &&& old(problem_data)@.item_categories.contains_key(item_name@)
                &&& before.has_member(ItemId(member_id))
                &&& final(problem_data)@.item_categories == old(problem_data)@.item_categories.insert(
                    item_name@,
                    with_members(before, before.members.filter(|m: MemberView| m.id != ItemId(member_id))),
                )
                &&& final(problem_data)@.names == old(problem_data)@.names
            },
            Err(e) => {
                &&& final(problem_data)@ == old(problem_data)@
                &&& e == ApiError::ItemNotFound || e == ApiError::MemberNotFound
                &&& e == ApiError::ItemNotFound <==> !old(problem_data)@.item_categories.contains_key(
                    item_name@,
                )
                &&& e == ApiError::MemberNotFound ==> !old(problem_data)@.item_categories[item_name@].has_member(
                    ItemId(member_id),
                )
            },
        },
{
    let ghost before = problem_data@;
    match problem_data.item_categories.get_mut(item_name) {
        Some(item) => {
            if item.position_of(ItemId(member_id)).is_some() {
                remove_members(&mut item.members, ItemId(member_id));
                Ok(())
            } else {
                assert(problem_data@.item_categories =~= before.item_categories);
                Err(ApiError::MemberNotFound)
            }
        },
        None => {
            Err(ApiError::ItemNotFound)
        },
    }
}

} // verus!
