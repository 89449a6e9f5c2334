//! A sample problem: a small university timetable, and constraints for it.

use crate::domain::constraint::{
    condition_views, constraint_views, texts,
};
use crate::domain::{
    ComparisonOperator, Condition, ConditionView, Constraint, ConstraintMode, ConstraintRule,
    ConstraintRuleView, ConstraintView, FieldSchema, FieldSchemaView, FieldType, Item, ItemId,
    ItemView, LogicalOperator, Member, MemberView, ProblemData, ProblemView, Schema, SetType,
    Value, ValueView,
};
use crate::application::algorithm::task_category;
use crate::name_map::NameMap;
use vstd::prelude::*;

verus! {

/// A required field of a schema.
pub open spec fn required(name: Seq<char>, field_type: FieldType) -> FieldSchemaView {
    FieldSchemaView { field_name: name, field_type, is_required: true }
}

/// A course of 90 minutes.
pub open spec fn course(id: u32, name: Seq<char>) -> MemberView {
    MemberView {
        id: ItemId(id),
        fields: map!["name"@ => ValueView::Text(name), "duration"@ => ValueView::Number(90)],
    }
}

/// A room and the number of its seats.
pub open spec fn room(id: u32, name: Seq<char>, capacity: i32) -> MemberView {
    MemberView {
        id: ItemId(id),
        fields: map!["name"@ => ValueView::Text(name), "capacity"@ => ValueView::Number(capacity)],
    }
}

/// A time slot on a day of the week.
pub open spec fn time_slot(id: u32, day: Seq<char>, start: Seq<char>, end: Seq<char>) -> MemberView {
    MemberView {
        id: ItemId(id),
        fields: map![
            "day"@ => ValueView::Text(day),
            "start"@ => ValueView::Date(start),
            "end"@ => ValueView::Date(end)
        ],
    }
}

/// A lecturer.
pub open spec fn lecturer(id: u32, name: Seq<char>) -> MemberView {
    MemberView { id: ItemId(id), fields: map!["name"@ => ValueView::Text(name)] }
}

/// The courses of the sample problem: its tasks.
pub open spec fn courses() -> ItemView {
    ItemView {
        name: "Course"@,
        item_set_type: SetType::B_Set,
        members: seq![
            course(1, "Photogrammetric CV"@),
            course(2, "Machine Learning"@),
            course(3, "Virtual Reality"@),
            course(4, "HCI Theory"@),
            course(5, "Computer Vision"@),
        ],
        schema: map![
            "name"@ => required("name"@, FieldType::Text),
            "duration"@ => required("duration"@, FieldType::Integer)
        ],
    }
}

/// The rooms of the sample problem.
pub open spec fn rooms() -> ItemView {
    ItemView {
        name: "Room"@,
        item_set_type: SetType::E_Set,
        members: seq![
            room(1, "B11"@, 50),
            room(2, "SR_A"@, 30),
            room(3, "SR_H"@, 25),
            room(4, "LH_HK7"@, 100),
        ],
        schema: map![
            "name"@ => required("name"@, FieldType::Text),
            "capacity"@ => required("capacity"@, FieldType::Integer)
        ],
    }
}

/// The time slots of the sample problem; none covers the lunch break from
/// 12:00 to 13:30.
pub open spec fn time_slots() -> ItemView {
    ItemView {
        name: "TimeSlot"@,
        item_set_type: SetType::E_Set,
        members: seq![
            time_slot(1, "Monday"@, "08:00"@, "09:30"@),
            time_slot(2, "Monday"@, "09:45"@, "11:15"@),
            time_slot(3, "Monday"@, "13:30"@, "15:00"@),
            time_slot(4, "Tuesday"@, "09:45"@, "11:15"@),
            time_slot(5, "Wednesday"@, "13:30"@, "15:00"@),
            time_slot(6, "Thursday"@, "09:45"@, "11:15"@),
            time_slot(7, "Friday"@, "15:15"@, "16:45"@),
        ],
        schema: map![
            "day"@ => required("day"@, FieldType::Text),
            "start"@ => required("start"@, FieldType::DateTime),
            "end"@ => required("end"@, FieldType::DateTime)
        ],
    }
}

/// The lecturers of the sample problem.
pub open spec fn lecturers() -> ItemView {
    ItemView {
        name: "Lecturer"@,
        item_set_type: SetType::E_Set,
        members: seq![
            lecturer(1, "Prof. Rodehorst"@),
            lecturer(2, "Prof. Stein"@),
            lecturer(3, "Prof. Fr\u{f6}hlich"@),
            lecturer(4, "Prof. Hornecker"@),
        ],
        schema: map!["name"@ => required("name"@, FieldType::Text)],
    }
}

/// The sample problem: courses to schedule into rooms and time slots, with
/// lecturers.
pub open spec fn sample_problem() -> ProblemView {
    ProblemView {
        names: seq!["Course"@, "Room"@, "TimeSlot"@, "Lecturer"@],
        item_categories: map![
            "Course"@ => courses(),
            "Room"@ => rooms(),
            "TimeSlot"@ => time_slots(),
            "Lecturer"@ => lecturers()
        ],
    }
}

fn required_field(name: &str, field_type: FieldType) -> (f: FieldSchema)
    ensures
        f@ == required(name@, field_type),
{
    FieldSchema { field_name: name.to_string(), field_type, is_required: true }
}

fn schema_of(first: FieldSchema, more: Vec<FieldSchema>) -> (s: Schema)
    requires
        more@.len() <= 2,
    ensures
        more@.len() == 0 ==> s@ == map![first@.field_name => first@],
        more@.len() == 1 ==> s@ == map![first@.field_name => first@, more@[0]@.field_name => more@[0]@],
        more@.len() == 2 ==> s@ == map![
            first@.field_name => first@,
            more@[0]@.field_name => more@[0]@,
            more@[1]@.field_name => more@[1]@
        ],
{
    let mut definitions: NameMap<FieldSchema> = NameMap::new();
    definitions.insert(first.field_name.clone(), first);
    let mut more = more;
    if more.len() == 2 {
        let third = more.remove(1);
        let second = more.remove(0);
        definitions.insert(second.field_name.clone(), second);
        definitions.insert(third.field_name.clone(), third);
        Schema { definitions }
    } else if more.len() == 1 {
        let second = more.remove(0);
        definitions.insert(second.field_name.clone(), second);
        Schema { definitions }
    } else {
        Schema { definitions }
    }
}

fn course_member(id: u32, name: &str) -> (m: Member)
    ensures
        m@ == course(id, name@),
{
    let mut fields: NameMap<Value> = NameMap::new();
    fields.insert("name".to_string(), Value::String(name.to_string()));
    fields.insert("duration".to_string(), Value::Number(90));
    let m = Member { id: ItemId(id), fields };
    assert(m@.fields =~= course(id, name@).fields);
    m
}

fn room_member(id: u32, name: &str, capacity: i32) -> (m: Member)
    ensures
        m@ == room(id, name@, capacity),
{
    let mut fields: NameMap<Value> = NameMap::new();
    fields.insert("name".to_string(), Value::String(name.to_string()));
    fields.insert("capacity".to_string(), Value::Number(capacity));
    let m = Member { id: ItemId(id), fields };
    assert(m@.fields =~= room(id, name@, capacity).fields);
    m
}

fn time_slot_member(id: u32, day: &str, start: &str, end: &str) -> (m: Member)
    ensures
        m@ == time_slot(id, day@, start@, end@),
{
    let mut fields: NameMap<Value> = NameMap::new();
    fields.insert("day".to_string(), Value::String(day.to_string()));
    fields.insert("start".to_string(), Value::Date(start.to_string()));
    fields.insert("end".to_string(), Value::Date(end.to_string()));
    let m = Member { id: ItemId(id), fields };
    assert(m@.fields =~= time_slot(id, day@, start@, end@).fields);
    m
}

fn lecturer_member(id: u32, name: &str) -> (m: Member)
    ensures
        m@ == lecturer(id, name@),
{
    let mut fields: NameMap<Value> = NameMap::new();
    fields.insert("name".to_string(), Value::String(name.to_string()));
    let m = Member { id: ItemId(id), fields };
    assert(m@.fields =~= lecturer(id, name@).fields);
    m
}

fn course_item() -> (item: Item)
    ensures
        item@ == courses(),
{
    let course_schema = schema_of(
        required_field("name", FieldType::Text),
        vec![required_field("duration", FieldType::Integer)],
    );
    let courses = vec![
        course_member(1, "Photogrammetric CV"),
        course_member(2, "Machine Learning"),
        course_member(3, "Virtual Reality"),
        course_member(4, "HCI Theory"),
        course_member(5, "Computer Vision"),
    ];
    let item = Item {
        name: "Course".to_string(),
        item_set_type: SetType::B_Set,
        members: courses,
        schema: course_schema,
    };
    assert(item@.members =~= self::courses().members);
    item
}

fn room_item() -> (item: Item)
    ensures
        item@ == rooms(),
{
    let room_schema = schema_of(
        required_field("name", FieldType::Text),
        vec![required_field("capacity", FieldType::Integer)],
    );
    let rooms = vec![
        room_member(1, "B11", 50),
        room_member(2, "SR_A", 30),
        room_member(3, "SR_H", 25),
        room_member(4, "LH_HK7", 100),
    ];
    let item = Item {
        name: "Room".to_string(),
        item_set_type: SetType::E_Set,
        members: rooms,
        schema: room_schema,
    };
    assert(item@.members =~= self::rooms().members);
    item
}

fn time_slot_item() -> (item: Item)
    ensures
        item@ == time_slots(),
{
    let time_schema = schema_of(
        required_field("day", FieldType::Text),
        vec![required_field("start", FieldType::DateTime), required_field("end", FieldType::DateTime)],
    );
    let time_slots = vec![
        time_slot_member(1, "Monday", "08:00", "09:30"),
        time_slot_member(2, "Monday", "09:45", "11:15"),
        time_slot_member(3, "Monday", "13:30", "15:00"),
        time_slot_member(4, "Tuesday", "09:45", "11:15"),
        time_slot_member(5, "Wednesday", "13:30", "15:00"),
        time_slot_member(6, "Thursday", "09:45", "11:15"),
        time_slot_member(7, "Friday", "15:15", "16:45"),
    ];
    let item = Item {
        name: "TimeSlot".to_string(),
        item_set_type: SetType::E_Set,
        members: time_slots,
        schema: time_schema,
    };
    assert(item@.members =~= self::time_slots().members);
    item
}

fn lecturer_item() -> (item: Item)
    ensures
        item@ == lecturers(),
{
    let lecturer_schema = schema_of(required_field("name", FieldType::Text), vec![]);
    let lecturers = vec![
        lecturer_member(1, "Prof. Rodehorst"),
        lecturer_member(2, "Prof. Stein"),
        lecturer_member(3, "Prof. Fr\u{f6}hlich"),
        lecturer_member(4, "Prof. Hornecker"),
    ];
    let item = Item {
        name: "Lecturer".to_string(),
        item_set_type: SetType::E_Set,
        members: lecturers,
        schema: lecturer_schema,
    };
    assert(item@.members =~= self::lecturers().members);
    item
}

/// In the sample problem every category is stored under its own name, and
/// the courses are the tasks.
pub proof fn lemma_sample_problem()
    ensures
        sample_problem().keyed_by_name(),
        task_category(sample_problem()) == Some("Course"@),
{
    reveal_strlit("Course");
    reveal_strlit("Room");
    reveal_strlit("TimeSlot");
    reveal_strlit("Lecturer");
    let p = sample_problem();
    assert("TimeSlot"@[0] == 'T' && "Lecturer"@[0] == 'L');
    assert(p.names[0] == "Course"@);
}

/// The sample problem: five courses, the tasks, to be given one of four
/// rooms, one of seven time slots and one of four lecturers each.
pub fn create_sample_problem() -> (p: ProblemData)
    ensures
        p@ == sample_problem(),
        p@.keyed_by_name(),
        task_category(p@) == Some("Course"@),
{
    proof {
        lemma_sample_problem();
    }
    let mut item_categories: NameMap<Item> = NameMap::new();
    proof {
        reveal_strlit("Course");
        reveal_strlit("Room");
        reveal_strlit("TimeSlot");
        reveal_strlit("Lecturer");
    }
    item_categories.insert("Course".to_string(), course_item());
    assert("Course"@.len() == 6 && "Room"@.len() == 4 && "TimeSlot"@.len() == 8);
    assert("TimeSlot"@[0] == 'T' && "Lecturer"@[0] == 'L');
    item_categories.insert("Room".to_string(), room_item());
    item_categories.insert("TimeSlot".to_string(), time_slot_item());
    item_categories.insert("Lecturer".to_string(), lecturer_item());
    let p = ProblemData { item_categories };
    assert(p@.names =~= sample_problem().names);
    assert(p@.item_categories =~= sample_problem().item_categories);
    p
}

/// A condition on one field.
pub open spec fn condition(
    item_name: Seq<char>,
    field_key: Seq<char>,
    operator: ComparisonOperator,
    target_values: Seq<Seq<char>>,
) -> ConditionView {
    ConditionView { item_name, field_key, operator, target_values }
}

/// A rule that forbids the assignments of which the conditions hold.
pub open spec fn forbidden(conditions: Seq<ConditionView>, logical_op: LogicalOperator) -> ConstraintRuleView {
    ConstraintRuleView::MultiAssignmentCheck { conditions, logical_op, mode: ConstraintMode::Forbid }
}

/// A rule that lets no two assignments of one time slot have the same id
/// of `item_name`.
pub open spec fn one_per_time_slot(unique_item_field: Seq<char>) -> ConstraintRuleView {
    ConstraintRuleView::GlobalAllDifferent { unique_item_field, group_item_field: "TimeSlot:id"@ }
}

/// A rule that gives no lecturer more than `max_count` of the assignments
/// in scope.
pub open spec fn lecturer_load(max_count: u32, scope_conditions: Option<Seq<ConditionView>>) -> ConstraintRuleView {
    ConstraintRuleView::GlobalCardinality {
        target_item_field: "Lecturer:id"@,
        max_count,
        scope_conditions,
    }
}

/// A time slot starts at or after `time`.
pub open spec fn starts_from(time: Seq<char>) -> ConditionView {
    condition("TimeSlot"@, "start"@, ComparisonOperator::GreaterThanOrEqual, seq![time])
}

/// The constraints of the sample problem. The hard ones, of weight 100 and
/// more: no room and no lecturer twice in a time slot, nothing during lunch,
/// no room under 40 seats. The soft ones: at most two courses per lecturer,
/// nothing from 18:00, nothing on Friday from 13:00, nothing from 15:00, and
/// at most three courses per lecturer from 13:30.
pub open spec fn sample_constraints() -> Seq<ConstraintView> {
    seq![
        ConstraintView {
            name: "No Room Conflicts"@,
            weight: 100,
            rule: one_per_time_slot("Room:id"@),
        },
        ConstraintView {
            name: "No Lecturer Conflicts"@,
            weight: 100,
            rule: one_per_time_slot("Lecturer:id"@),
        },
        ConstraintView {
            name: "Mandatory Lunch Break"@,
            weight: 150,
            rule: forbidden(
                seq![
                    condition(
                        "TimeSlot"@,
                        "start"@,
                        ComparisonOperator::In,
                        seq!["12:00"@, "12:30"@, "13:00"@],
                    ),
                ],
                LogicalOperator::Or,
            ),
        },
        ConstraintView {
            name: "Room Must Fit Students"@,
            weight: 100,
            rule: forbidden(
                seq![condition("Room"@, "capacity"@, ComparisonOperator::LessThan, seq!["40"@])],
                LogicalOperator::And,
            ),
        },
        ConstraintView {
            name: "Max 2 Courses Per Lecturer"@,
            weight: 80,
            rule: lecturer_load(2, None),
        },
        ConstraintView {
            name: "No Late Evening Classes"@,
            weight: 60,
            rule: forbidden(seq![starts_from("18:00"@)], LogicalOperator::And),
        },
        ConstraintView {
            name: "Avoid Friday Afternoon"@,
            weight: 25,
            rule: forbidden(
                seq![
                    condition("TimeSlot"@, "day"@, ComparisonOperator::Equal, seq!["Friday"@]),
                    starts_from("13:00"@),
                ],
                LogicalOperator::And,
            ),
        },
        ConstraintView {
            name: "Prefer Morning Teaching"@,
            weight: 15,
            rule: forbidden(seq![starts_from("15:00"@)], LogicalOperator::And),
        },
        ConstraintView {
            name: "Professor Research Time"@,
            weight: 40,
            rule: lecturer_load(3, Some(seq![starts_from("13:30"@)])),
        },
    ]
}

fn condition_on(item_name: &str, field_key: &str, operator: ComparisonOperator, target_values: Vec<String>) -> (c:
    Condition)
    ensures
        c@ == condition(item_name@, field_key@, operator, texts(target_values@)),
{
    Condition {
        item_name: item_name.to_string(),
        field_key: field_key.to_string(),
        operator,
        target_values,
    }
}

fn starting_from(time: &str) -> (c: Condition)
    ensures
        c@ == starts_from(time@),
{
    let targets = vec![time.to_string()];
    assert(texts(targets@) =~= seq![time@]);
    condition_on("TimeSlot", "start", ComparisonOperator::GreaterThanOrEqual, targets)
}

fn forbid(name: &str, weight: u32, conditions: Vec<Condition>, logical_op: LogicalOperator) -> (c: Constraint)
    ensures
        c@ == (ConstraintView {
            name: name@,
            weight,
            rule: forbidden(condition_views(conditions@), logical_op),
        }),
{
    Constraint {
        name: name.to_string(),
        weight,
        rule: ConstraintRule::MultiAssignmentCheck { conditions, logical_op, mode: ConstraintMode::Forbid },
    }
}

fn no_conflicts(name: &str, weight: u32, unique_item_field: &str) -> (c: Constraint)
    ensures
        c@ == (ConstraintView { name: name@, weight, rule: one_per_time_slot(unique_item_field@) }),
{
    Constraint {
        name: name.to_string(),
        weight,
        rule: ConstraintRule::GlobalAllDifferent {
            unique_item_field: unique_item_field.to_string(),
            group_item_field: "TimeSlot:id".to_string(),
        },
    }
}

fn load(name: &str, weight: u32, max_count: u32, scope_conditions: Option<Vec<Condition>>) -> (c: Constraint)
    ensures
        c@ == (ConstraintView {
            name: name@,
            weight,
            rule: lecturer_load(
                max_count,
                match scope_conditions {
                    Some(conditions) => Some(condition_views(conditions@)),
                    None => None,
                },
            ),
        }),
{
    Constraint {
        name: name.to_string(),
        weight,
        rule: ConstraintRule::GlobalCardinality {
            target_item_field: "Lecturer:id".to_string(),
            max_count,
            scope_conditions,
        },
    }
}

/// The constraints of the sample problem.
pub fn create_sample_constraints() -> (constraints: Vec<Constraint>)
    ensures
        constraint_views(constraints@) == sample_constraints(),
{
    let lunch_targets = vec!["12:00".to_string(), "12:30".to_string(), "13:00".to_string()];
    assert(texts(lunch_targets@) =~= seq!["12:00"@, "12:30"@, "13:00"@]);
    let lunch = vec![condition_on("TimeSlot", "start", ComparisonOperator::In, lunch_targets)];
    let seats = vec!["40".to_string()];
    assert(texts(seats@) =~= seq!["40"@]);
    let small = vec![condition_on("Room", "capacity", ComparisonOperator::LessThan, seats)];
    let friday_targets = vec!["Friday".to_string()];
    assert(texts(friday_targets@) =~= seq!["Friday"@]);
    let friday = vec![
        condition_on("TimeSlot", "day", ComparisonOperator::Equal, friday_targets),
        starting_from("13:00"),
    ];
    let evening = vec![starting_from("18:00")];
    let afternoon = vec![starting_from("15:00")];
    let research = vec![starting_from("13:30")];
    proof {
        assert(condition_views(lunch@) =~= seq![
            condition("TimeSlot"@, "start"@, ComparisonOperator::In, seq!["12:00"@, "12:30"@, "13:00"@]),
        ]);
        assert(condition_views(small@) =~= seq![
            condition("Room"@, "capacity"@, ComparisonOperator::LessThan, seq!["40"@]),
        ]);
        assert(condition_views(friday@) =~= seq![
            condition("TimeSlot"@, "day"@, ComparisonOperator::Equal, seq!["Friday"@]),
            starts_from("13:00"@),
        ]);
        assert(condition_views(evening@) =~= seq![starts_from("18:00"@)]);
        assert(condition_views(afternoon@) =~= seq![starts_from("15:00"@)]);
        assert(condition_views(research@) =~= seq![starts_from("13:30"@)]);
    }
    vec![
        no_conflicts("No Room Conflicts", 100, "Room:id"),
        no_conflicts("No Lecturer Conflicts", 100, "Lecturer:id"),
        forbid("Mandatory Lunch Break", 150, lunch, LogicalOperator::Or),
        forbid("Room Must Fit Students", 100, small, LogicalOperator::And),
        load("Max 2 Courses Per Lecturer", 80, 2, None),
        forbid("No Late Evening Classes", 60, evening, LogicalOperator::And),
        forbid("Avoid Friday Afternoon", 25, friday, LogicalOperator::And),
        forbid("Prefer Morning Teaching", 15, afternoon, LogicalOperator::And),
        load("Professor Research Time", 40, 3, Some(research)),
    ]
}

} // verus!
