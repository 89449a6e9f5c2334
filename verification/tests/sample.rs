use rand::rngs::StdRng;
use rand::SeedableRng;
use scheduling_optimizer::application::algorithm::create_random_schedule;
use scheduling_optimizer::application::annealing::Annealing;
use scheduling_optimizer::application::constraint_evaluator::{evaluate_constraint, evaluate_schedule};
use scheduling_optimizer::domain::{Assignment, ConstraintRule, FieldType, ItemId, Schedule, SetType, Value};
use scheduling_optimizer::name_map::NameMap;
use scheduling_optimizer::sample::{create_sample_constraints, create_sample_problem};

fn sa_booking(course: u32, room: u32, slot: u32, lecturer: u32) -> Assignment {
    let mut resources = NameMap::new();
    resources.insert("Room".to_string(), ItemId(room));
    resources.insert("TimeSlot".to_string(), ItemId(slot));
    resources.insert("Lecturer".to_string(), ItemId(lecturer));
    Assignment { task_id: ItemId(course), task_item_name: "Course".to_string(), resources }
}

#[test]
fn sample_problem_has_four_categories() {
    let p = create_sample_problem();
    assert_eq!(p.item_categories.keys(), vec!["Course", "Room", "TimeSlot", "Lecturer"]);
    let sizes: Vec<(String, SetType, usize)> = (0..4)
        .map(|i| {
            let item = p.item_categories.value_at(i);
            (item.name.clone(), item.item_set_type, item.members.len())
        })
        .collect();
    assert_eq!(
        sizes,
        vec![
            ("Course".to_string(), SetType::B_Set, 5),
            ("Room".to_string(), SetType::E_Set, 4),
            ("TimeSlot".to_string(), SetType::E_Set, 7),
            ("Lecturer".to_string(), SetType::E_Set, 4),
        ]
    );
}

#[test]
fn sample_members_carry_their_fields() {
    let p = create_sample_problem();
    let courses = p.item_categories.get("Course").unwrap();
    assert_eq!(courses.members.iter().map(|m| m.id.0).collect::<Vec<_>>(), vec![1, 2, 3, 4, 5]);
    assert_eq!(courses.members[1].fields.get("name"), Some(&Value::String("Machine Learning".to_string())));
    assert_eq!(courses.members[4].fields.get("duration"), Some(&Value::Number(90)));
    let rooms = p.item_categories.get("Room").unwrap();
    assert_eq!(rooms.members[3].fields.get("name"), Some(&Value::String("LH_HK7".to_string())));
    assert_eq!(rooms.members[3].fields.get("capacity"), Some(&Value::Number(100)));
    assert_eq!(rooms.members[2].fields.get("capacity"), Some(&Value::Number(25)));
    let slots = p.item_categories.get("TimeSlot").unwrap();
    assert_eq!(slots.members[6].id, ItemId(7));
    assert_eq!(slots.members[6].fields.keys(), vec!["day", "start", "end"]);
    assert_eq!(slots.members[6].fields.get("day"), Some(&Value::String("Friday".to_string())));
    assert_eq!(slots.members[6].fields.get("start"), Some(&Value::Date("15:15".to_string())));
    assert_eq!(slots.members[0].fields.get("end"), Some(&Value::Date("09:30".to_string())));
    let lecturers = p.item_categories.get("Lecturer").unwrap();
    assert_eq!(lecturers.members[2].fields.get("name"), Some(&Value::String("Prof. Fr\u{f6}hlich".to_string())));
}

#[test]
fn sample_schemas_name_the_fields() {
    let p = create_sample_problem();
    let slots = p.item_categories.get("TimeSlot").unwrap();
    assert_eq!(slots.schema.definitions.keys(), vec!["day", "start", "end"]);
    let start = slots.schema.definitions.get("start").unwrap();
    assert_eq!(start.field_name, "start");
    assert_eq!(start.field_type, FieldType::DateTime);
    assert!(start.is_required);
    let rooms = p.item_categories.get("Room").unwrap();
    assert_eq!(rooms.schema.definitions.get("capacity").unwrap().field_type, FieldType::Integer);
    assert_eq!(rooms.schema.definitions.get("name").unwrap().field_type, FieldType::Text);
    let lecturers = p.item_categories.get("Lecturer").unwrap();
    assert_eq!(lecturers.schema.definitions.keys(), vec!["name"]);
    let courses = p.item_categories.get("Course").unwrap();
    assert_eq!(courses.schema.definitions.keys(), vec!["name", "duration"]);
}

#[test]
fn sample_constraints_are_nine() {
    let constraints = create_sample_constraints();
    let listing: Vec<(&str, u32)> = constraints.iter().map(|c| (c.name.as_str(), c.weight)).collect();
    assert_eq!(
        listing,
        vec![
            ("No Room Conflicts", 100),
            ("No Lecturer Conflicts", 100),
            ("Mandatory Lunch Break", 150),
            ("Room Must Fit Students", 100),
            ("Max 2 Courses Per Lecturer", 80),
            ("No Late Evening Classes", 60),
            ("Avoid Friday Afternoon", 25),
            ("Prefer Morning Teaching", 15),
            ("Professor Research Time", 40),
        ]
    );
    match &constraints[8].rule {
        ConstraintRule::GlobalCardinality { target_item_field, max_count, scope_conditions } => {
            assert_eq!(target_item_field, "Lecturer:id");
            assert_eq!(*max_count, 3);
            let scope = scope_conditions.as_ref().unwrap();
            assert_eq!(scope.len(), 1);
            assert_eq!(scope[0].target_values, vec!["13:30"]);
        }
        _ => panic!("the last sample constraint is a cardinality rule"),
    }
}

#[test]
fn sample_constraints_weigh_a_crowded_schedule() {
    let p = create_sample_problem();
    let constraints = create_sample_constraints();
    let crowded = Schedule::new(vec![
        sa_booking(1, 2, 7, 1),
        sa_booking(2, 2, 7, 1),
        sa_booking(3, 2, 7, 1),
        sa_booking(4, 4, 1, 1),
    ]);
    let per_rule: Vec<u32> = constraints.iter().map(|c| evaluate_constraint(&c.rule, &crowded, &p)).collect();
    assert_eq!(per_rule, vec![2, 2, 0, 3, 2, 0, 3, 3, 0]);
    let expected = 2 * 100 + 2 * 100 + 3 * 100 + 2 * 80 + 3 * 25 + 3 * 15;
    assert_eq!(evaluate_schedule(&crowded, &p, &constraints), expected);
    let calm = Schedule::new(vec![sa_booking(1, 1, 1, 1), sa_booking(2, 4, 2, 2), sa_booking(3, 1, 4, 3)]);
    assert_eq!(evaluate_schedule(&calm, &p, &constraints), 0);
}

#[test]
fn sample_problem_can_be_solved() {
    let p = create_sample_problem();
    let constraints = create_sample_constraints();
    let mut rng = StdRng::seed_from_u64(2024);
    let first = create_random_schedule(&p, &mut rng);
    assert_eq!(first.len(), 5);
    let mut run = Annealing::new(&p, &constraints, first);
    let initial = run.initial_cost();
    for _ in 0..3000 {
        let (next, _) = run.propose(&mut rng);
        run = next.decide(false);
    }
    assert!(run.best_cost() <= initial);
    assert_eq!(run.best_cost(), 0);
    let best = run.into_best();
    assert_eq!(evaluate_schedule(&best, &p, &constraints), 0);
}
