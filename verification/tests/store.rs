use scheduling_optimizer::api_error::ApiError;
use scheduling_optimizer::domain::{
    Constraint, ConstraintMode, ConstraintRule, FieldSchema, FieldType, Item, ItemId,
    LogicalOperator, Member, ProblemData, Schema, SetType, Value,
};
use scheduling_optimizer::name_map::NameMap;
use scheduling_optimizer::routes::{
    add_member, create_constraint, create_item, delete_constraint, delete_item, delete_member,
    list_constraints, list_items, list_members, update_constraint, update_item, update_member,
    AddMemberRequest, CreateConstraintRequest, CreateItemRequest, UpdateItemRequest,
};

fn st_fields(pairs: Vec<(&str, Value)>) -> NameMap<Value> {
    let mut map = NameMap::new();
    for (key, value) in pairs {
        map.insert(key.to_string(), value);
    }
    map
}

fn st_schema(fields: &[(&str, FieldType, bool)]) -> Schema {
    let mut definitions = NameMap::new();
    for (name, field_type, is_required) in fields {
        definitions.insert(
            name.to_string(),
            FieldSchema { field_name: name.to_string(), field_type: *field_type, is_required: *is_required },
        );
    }
    Schema { definitions }
}

fn st_store() -> ProblemData {
    let mut item_categories = NameMap::new();
    item_categories.insert(
        "Course".to_string(),
        Item {
            name: "Course".to_string(),
            item_set_type: SetType::B_Set,
            members: vec![
                Member { id: ItemId(1), fields: st_fields(vec![("name", Value::String("ML".to_string()))]) },
                Member { id: ItemId(2), fields: st_fields(vec![("name", Value::String("VR".to_string()))]) },
                Member { id: ItemId(1), fields: st_fields(vec![("name", Value::String("ML again".to_string()))]) },
            ],
            schema: st_schema(&[("name", FieldType::Text, true)]),
        },
    );
    item_categories.insert(
        "Room".to_string(),
        Item {
            name: "Room".to_string(),
            item_set_type: SetType::E_Set,
            members: vec![],
            schema: st_schema(&[]),
        },
    );
    ProblemData { item_categories }
}

fn st_names(p: &ProblemData) -> Vec<String> {
    p.item_categories.keys()
}

fn st_member_names(p: &ProblemData, category: &str) -> Vec<(u32, Option<Value>)> {
    p.item_categories
        .get(category)
        .unwrap()
        .members
        .iter()
        .map(|m| (m.id.0, m.fields.get("name").cloned()))
        .collect()
}

fn st_rule() -> ConstraintRule {
    ConstraintRule::MultiAssignmentCheck {
        conditions: vec![],
        logical_op: LogicalOperator::And,
        mode: ConstraintMode::Forbid,
    }
}

fn st_constraint(name: &str, weight: u32) -> Constraint {
    Constraint { name: name.to_string(), weight, rule: st_rule() }
}

fn st_listing(constraints: &Vec<Constraint>) -> Vec<(String, u32)> {
    constraints.iter().map(|c| (c.name.clone(), c.weight)).collect()
}

fn named(s: &str) -> Option<Value> {
    Some(Value::String(s.to_string()))
}

#[test]
fn error_replies_carry_status_and_message() {
    let (status, body) = ApiError::ItemNotFound.into_response();
    assert_eq!((status, body.error.as_str()), (404, "Item not found"));
    let (status, body) = ApiError::MemberNotFound.into_response();
    assert_eq!((status, body.error.as_str()), (404, "Member not found"));
    let (status, body) = ApiError::InvalidInput.into_response();
    assert_eq!((status, body.error.as_str()), (400, "Invalid input"));
    let (status, body) = ApiError::UnexpectedError.into_response();
    assert_eq!((status, body.error.as_str()), (500, "Unexpected error"));
}

#[test]
fn created_item_has_no_members() {
    let mut p = st_store();
    create_item(
        &mut p,
        CreateItemRequest {
            name: "Lecturer".to_string(),
            item_set_type: SetType::E_Set,
            schema: st_schema(&[("name", FieldType::Text, true)]),
        },
    );
    assert_eq!(st_names(&p), vec!["Course", "Room", "Lecturer"]);
    let item = p.item_categories.get("Lecturer").unwrap();
    assert_eq!(item.name, "Lecturer");
    assert_eq!(item.item_set_type, SetType::E_Set);
    assert!(item.members.is_empty());
    assert_eq!(item.schema.definitions.keys(), vec!["name"]);
}

#[test]
fn created_item_replaces_one_of_the_same_name() {
    let mut p = st_store();
    create_item(
        &mut p,
        CreateItemRequest { name: "Course".to_string(), item_set_type: SetType::E_Set, schema: st_schema(&[]) },
    );
    assert_eq!(st_names(&p), vec!["Course", "Room"]);
    let item = p.item_categories.get("Course").unwrap();
    assert_eq!(item.item_set_type, SetType::E_Set);
    assert!(item.members.is_empty());
    assert!(item.schema.definitions.is_empty());
}

#[test]
fn items_are_listed_in_their_order() {
    let list = list_items(&st_store());
    let rows: Vec<(String, SetType, usize)> =
        list.items.iter().map(|i| (i.name.clone(), i.item_set_type, i.member_count)).collect();
    assert_eq!(
        rows,
        vec![("Course".to_string(), SetType::B_Set, 3), ("Room".to_string(), SetType::E_Set, 0)]
    );
    assert!(list_items(&ProblemData { item_categories: NameMap::new() }).items.is_empty());
}

#[test]
fn updated_item_keeps_its_name_and_members() {
    let mut p = st_store();
    let r = update_item(
        &mut p,
        "Course",
        UpdateItemRequest {
            item_set_type: SetType::E_Set,
            schema: st_schema(&[("weeks", FieldType::Integer, false)]),
        },
    );
    assert_eq!(r, Ok(()));
    let item = p.item_categories.get("Course").unwrap();
    assert_eq!(item.name, "Course");
    assert_eq!(item.item_set_type, SetType::E_Set);
    assert_eq!(item.members.len(), 3);
    assert_eq!(item.schema.definitions.keys(), vec!["weeks"]);
    let weeks = item.schema.definitions.get("weeks").unwrap();
    assert_eq!((weeks.field_type, weeks.is_required), (FieldType::Integer, false));
    assert_eq!(st_names(&p), vec!["Course", "Room"]);
}

#[test]
fn updating_an_unknown_item_fails() {
    let mut p = st_store();
    let r = update_item(
        &mut p,
        "Lecturer",
        UpdateItemRequest { item_set_type: SetType::E_Set, schema: st_schema(&[]) },
    );
    assert_eq!(r, Err(ApiError::ItemNotFound));
    assert_eq!(st_names(&p), vec!["Course", "Room"]);
    assert_eq!(p.item_categories.get("Course").unwrap().item_set_type, SetType::B_Set);
}

#[test]
fn deleted_item_is_gone() {
    let mut p = st_store();
    assert_eq!(delete_item(&mut p, "Course"), Ok(()));
    assert_eq!(st_names(&p), vec!["Room"]);
    assert!(p.item_categories.get("Course").is_none());
    assert_eq!(delete_item(&mut p, "Course"), Err(ApiError::ItemNotFound));
    assert_eq!(delete_item(&mut p, "Room"), Ok(()));
    assert!(st_names(&p).is_empty());
}

#[test]
fn added_member_goes_to_the_end() {
    let mut p = st_store();
    let request = AddMemberRequest { id: ItemId(7), fields: st_fields(vec![("name", Value::String("HCI".to_string()))]) };
    assert_eq!(add_member(&mut p, "Course", request), Ok(()));
    assert_eq!(
        st_member_names(&p, "Course"),
        vec![(1, named("ML")), (2, named("VR")), (1, named("ML again")), (7, named("HCI"))]
    );
    let again = AddMemberRequest { id: ItemId(7), fields: st_fields(vec![]) };
    assert_eq!(add_member(&mut p, "Course", again), Ok(()));
    assert_eq!(p.item_categories.get("Course").unwrap().members.len(), 5);
    assert!(p.item_categories.get("Room").unwrap().members.is_empty());
}

#[test]
fn adding_a_member_to_an_unknown_item_fails() {
    let mut p = st_store();
    let request = AddMemberRequest { id: ItemId(7), fields: st_fields(vec![]) };
    assert_eq!(add_member(&mut p, "Lecturer", request), Err(ApiError::ItemNotFound));
    assert_eq!(st_names(&p), vec!["Course", "Room"]);
    assert_eq!(p.item_categories.get("Course").unwrap().members.len(), 3);
}

#[test]
fn members_are_listed_in_their_order() {
    let p = st_store();
    let list = list_members(&p, "Course").unwrap();
    let rows: Vec<(u32, Option<Value>)> =
        list.members.iter().map(|m| (m.id.0, m.fields.get("name").cloned())).collect();
    assert_eq!(rows, vec![(1, named("ML")), (2, named("VR")), (1, named("ML again"))]);
    assert!(list_members(&p, "Room").unwrap().members.is_empty());
    assert_eq!(list_members(&p, "Lecturer").err(), Some(ApiError::ItemNotFound));
}

#[test]
fn updated_member_gets_the_new_fields() {
    let mut p = st_store();
    let request = AddMemberRequest {
        id: ItemId(99),
        fields: st_fields(vec![("name", Value::String("Deep ML".to_string())), ("weeks", Value::Number(12))]),
    };
    assert_eq!(update_member(&mut p, "Course", 1, request), Ok(()));
    assert_eq!(
        st_member_names(&p, "Course"),
        vec![(1, named("Deep ML")), (2, named("VR")), (1, named("ML again"))]
    );
    let first = &p.item_categories.get("Course").unwrap().members[0];
    assert_eq!(first.fields.get("weeks"), Some(&Value::Number(12)));
    assert_eq!(first.fields.len(), 2);
}

#[test]
fn updating_an_unknown_member_fails() {
    let mut p = st_store();
    let request = || AddMemberRequest { id: ItemId(3), fields: st_fields(vec![]) };
    assert_eq!(update_member(&mut p, "Course", 3, request()), Err(ApiError::MemberNotFound));
    assert_eq!(update_member(&mut p, "Room", 1, request()), Err(ApiError::MemberNotFound));
    assert_eq!(update_member(&mut p, "Lecturer", 1, request()), Err(ApiError::ItemNotFound));
    assert_eq!(st_member_names(&p, "Course"), vec![(1, named("ML")), (2, named("VR")), (1, named("ML again"))]);
}

#[test]
fn deleted_member_is_gone_wherever_it_stood() {
    let mut p = st_store();
    assert_eq!(delete_member(&mut p, "Course", 1), Ok(()));
    assert_eq!(st_member_names(&p, "Course"), vec![(2, named("VR"))]);
    assert_eq!(delete_member(&mut p, "Course", 1), Err(ApiError::MemberNotFound));
    assert_eq!(delete_member(&mut p, "Course", 2), Ok(()));
    assert!(st_member_names(&p, "Course").is_empty());
    assert_eq!(delete_member(&mut p, "Course", 2), Err(ApiError::MemberNotFound));
}

#[test]
fn deleting_a_member_of_an_unknown_item_fails() {
    let mut p = st_store();
    assert_eq!(delete_member(&mut p, "Lecturer", 1), Err(ApiError::ItemNotFound));
    assert_eq!(delete_member(&mut p, "Room", 1), Err(ApiError::MemberNotFound));
    assert_eq!(p.item_categories.get("Course").unwrap().members.len(), 3);
}

#[test]
fn created_constraint_goes_to_the_end() {
    let mut constraints = vec![st_constraint("a", 1)];
    create_constraint(&mut constraints, CreateConstraintRequest { constraint: st_constraint("b", 2) });
    create_constraint(&mut constraints, CreateConstraintRequest { constraint: st_constraint("a", 3) });
    assert_eq!(st_listing(&constraints), vec![("a".to_string(), 1), ("b".to_string(), 2), ("a".to_string(), 3)]);
}

#[test]
fn constraints_are_listed_as_they_are() {
    let rule = ConstraintRule::GlobalTemporalPrecedence {
        grouping_item_field: "Course:track".to_string(),
        first_conditions: vec![],
        second_conditions: vec![],
        temporal_relation: scheduling_optimizer::domain::ComparisonOperator::Before,
        temporal_fields: vec!["start".to_string(), "end".to_string()],
    };
    let constraints = vec![
        st_constraint("a", 1),
        Constraint { name: "order".to_string(), weight: 9, rule },
        Constraint {
            name: "load".to_string(),
            weight: 4,
            rule: ConstraintRule::GlobalCardinality {
                target_item_field: "Lecturer:id".to_string(),
                max_count: 2,
                scope_conditions: Some(vec![]),
            },
        },
    ];
    let list = list_constraints(&constraints);
    assert_eq!(format!("{:?}", list.constraints), format!("{:?}", constraints));
    assert!(list_constraints(&vec![]).constraints.is_empty());
}

#[test]
fn updated_constraint_takes_the_place_of_the_first_of_that_name() {
    let mut constraints = vec![st_constraint("a", 1), st_constraint("b", 2), st_constraint("b", 3)];
    let r = update_constraint(&mut constraints, "b", CreateConstraintRequest { constraint: st_constraint("c", 7) });
    assert_eq!(r, Ok(()));
    assert_eq!(st_listing(&constraints), vec![("a".to_string(), 1), ("c".to_string(), 7), ("b".to_string(), 3)]);
}

#[test]
fn updating_an_unknown_constraint_fails() {
    let mut constraints = vec![st_constraint("a", 1)];
    let r = update_constraint(&mut constraints, "b", CreateConstraintRequest { constraint: st_constraint("b", 7) });
    assert_eq!(r, Err(ApiError::ItemNotFound));
    assert_eq!(st_listing(&constraints), vec![("a".to_string(), 1)]);
}

#[test]
fn deleted_constraint_is_gone_wherever_it_stood() {
    let mut constraints =
        vec![st_constraint("b", 1), st_constraint("a", 2), st_constraint("b", 3), st_constraint("c", 4), st_constraint("b", 5)];
    assert_eq!(delete_constraint(&mut constraints, "b"), Ok(()));
    assert_eq!(st_listing(&constraints), vec![("a".to_string(), 2), ("c".to_string(), 4)]);
    assert_eq!(delete_constraint(&mut constraints, "b"), Err(ApiError::ItemNotFound));
    assert_eq!(delete_constraint(&mut constraints, "c"), Ok(()));
    assert_eq!(delete_constraint(&mut constraints, "a"), Ok(()));
    assert!(constraints.is_empty());
    assert_eq!(delete_constraint(&mut constraints, "a"), Err(ApiError::ItemNotFound));
}
