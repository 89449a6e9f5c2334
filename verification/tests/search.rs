use rand::rngs::StdRng;
use rand::Rng;
use rand::SeedableRng;
use scheduling_optimizer::application::algorithm::{create_random_schedule, get_neighbor, neighbor_by, swap};
use scheduling_optimizer::application::annealing::Annealing;
use scheduling_optimizer::application::constraint_evaluator::evaluate_schedule;
use scheduling_optimizer::domain::{
    Assignment, ComparisonOperator, Condition, Constraint, ConstraintMode, ConstraintRule, Item,
    ItemId, LogicalOperator, Member, ProblemData, Schedule, Schema, SetType, Value,
};
use scheduling_optimizer::name_map::NameMap;

fn s_member(id: u32, fields: Vec<(&str, Value)>) -> Member {
    let mut map = NameMap::new();
    for (key, value) in fields {
        map.insert(key.to_string(), value);
    }
    Member { id: ItemId(id), fields: map }
}

fn s_item(name: &str, item_set_type: SetType, members: Vec<Member>) -> Item {
    Item {
        name: name.to_string(),
        item_set_type,
        members,
        schema: Schema { definitions: NameMap::new() },
    }
}

fn s_problem(items: Vec<Item>) -> ProblemData {
    let mut item_categories = NameMap::new();
    for it in items {
        item_categories.insert(it.name.clone(), it);
    }
    ProblemData { item_categories }
}

fn s_assignment(task_item: &str, task_id: u32, resources: &[(&str, u32)]) -> Assignment {
    let mut map = NameMap::new();
    for (name, id) in resources {
        map.insert(name.to_string(), ItemId(*id));
    }
    Assignment { task_id: ItemId(task_id), task_item_name: task_item.to_string(), resources: map }
}

fn s_constraint(name: &str, weight: u32, rule: ConstraintRule) -> Constraint {
    Constraint { name: name.to_string(), weight, rule }
}

fn plain(ids: &[u32]) -> Vec<Member> {
    ids.iter().map(|id| s_member(*id, vec![])).collect()
}

/// Tasks 1 to 4, rooms 10 to 12, slots 20 to 24.
fn workshop() -> ProblemData {
    s_problem(vec![
        s_item("Room", SetType::E_Set, plain(&[10, 11, 12])),
        s_item("Task", SetType::B_Set, plain(&[1, 2, 3, 4])),
        s_item("Slot", SetType::E_Set, plain(&[20, 21, 22, 23, 24])),
    ])
}

fn bindings(s: &Schedule) -> Vec<(u32, String, Vec<(String, u32)>)> {
    s.assignments
        .iter()
        .map(|a| {
            let keys = a.resources.keys();
            let bound = keys.iter().map(|k| (k.clone(), a.resources.get(k).unwrap().0)).collect();
            (a.task_id.0, a.task_item_name.clone(), bound)
        })
        .collect()
}

fn exists_in(p: &ProblemData, category: &str, id: u32) -> bool {
    match p.item_categories.get(category) {
        Some(item) => item.members.iter().any(|m| m.id.0 == id),
        None => false,
    }
}

fn room_clashes() -> Vec<Constraint> {
    vec![s_constraint(
        "one room per slot",
        10,
        ConstraintRule::GlobalAllDifferent {
            unique_item_field: "Room:id".to_string(),
            group_item_field: "Slot:id".to_string(),
        },
    )]
}

/// Runs the annealing loop: a candidate that costs less is always taken,
/// any other with the Metropolis probability at the current temperature.
fn anneal(
    problem: &ProblemData,
    constraints: &[Constraint],
    initial: Schedule,
    initial_temperature: f64,
    cooling_rate: f64,
    max_iterations: u32,
    rng: &mut StdRng,
) -> (Schedule, u32) {
    let mut run = Annealing::new(problem, constraints, initial);
    let mut temperature = initial_temperature;
    for _ in 0..max_iterations {
        let (next, delta) = run.propose(rng);
        let accept =
            delta < 0 || (temperature >= 1e-10 && rng.gen::<f64>() < (-(delta as f64) / temperature).exp());
        run = next.decide(accept);
        temperature *= cooling_rate;
    }
    let cost = run.best_cost();
    (run.into_best(), cost)
}

#[test]
fn neighbor_of_an_empty_schedule_is_empty() {
    let p = workshop();
    let mut rng = StdRng::seed_from_u64(1);
    let n = get_neighbor(&Schedule::new(vec![]), &p, &mut rng);
    assert!(n.is_empty());
    assert_eq!(n.len(), 0);
}

#[test]
fn neighbor_keeps_tasks_and_binds_existing_members() {
    let p = workshop();
    let mut rng = StdRng::seed_from_u64(7);
    let mut s = create_random_schedule(&p, &mut rng);
    for _ in 0..500 {
        let n = get_neighbor(&s, &p, &mut rng);
        assert_eq!(n.len(), s.len());
        let before = bindings(&s);
        let after = bindings(&n);
        let mut changed = 0;
        for (b, a) in before.iter().zip(after.iter()) {
            assert_eq!(a.0, b.0);
            assert_eq!(a.1, b.1);
            assert_eq!(a.2.len(), b.2.len());
            for ((bk, bid), (ak, aid)) in b.2.iter().zip(a.2.iter()) {
                assert_eq!(ak, bk);
                assert!(exists_in(&p, ak, *aid));
                if aid != bid {
                    changed += 1;
                }
            }
        }
        assert!(changed <= 2);
        s = n;
    }
}

#[test]
fn neighbor_changes_something_sooner_or_later() {
    let p = workshop();
    let mut rng = StdRng::seed_from_u64(3);
    let s = create_random_schedule(&p, &mut rng);
    let moved = (0..200).any(|_| bindings(&get_neighbor(&s, &p, &mut rng)) != bindings(&s));
    assert!(moved);
}

#[test]
fn neighbor_of_a_single_assignment_is_a_reassignment_or_a_copy() {
    let p = workshop();
    let mut rng = StdRng::seed_from_u64(11);
    let s = Schedule::new(vec![s_assignment("Task", 1, &[("Room", 10), ("Slot", 20)])]);
    for _ in 0..100 {
        let n = get_neighbor(&s, &p, &mut rng);
        let after = bindings(&n);
        assert_eq!(after.len(), 1);
        let differing = after[0].2.iter().filter(|(k, id)| {
            (k == "Room" && *id != 10) || (k == "Slot" && *id != 20)
        });
        assert!(differing.count() <= 1);
    }
}

#[test]
fn neighbor_leaves_resources_of_unknown_categories_alone() {
    let p = workshop();
    let mut rng = StdRng::seed_from_u64(5);
    let s = Schedule::new(vec![s_assignment("Task", 1, &[("Ghost", 77)])]);
    for _ in 0..50 {
        let n = get_neighbor(&s, &p, &mut rng);
        assert_eq!(bindings(&n), bindings(&s));
    }
}

#[test]
fn drawn_reassignment_binds_the_drawn_member() {
    let s = Schedule::new(vec![
        s_assignment("Task", 1, &[("Room", 10), ("Slot", 20)]),
        s_assignment("Task", 2, &[("Room", 11)]),
    ]);
    let n = neighbor_by(&s, true, 0, 1, &"Slot".to_string(), Some(ItemId(24)));
    assert_eq!(bindings(&n)[0].2, vec![("Room".to_string(), 10), ("Slot".to_string(), 24)]);
    assert_eq!(bindings(&n)[1], bindings(&s)[1]);
    let n = neighbor_by(&s, true, 1, 1, &"Room".to_string(), Some(ItemId(12)));
    assert_eq!(bindings(&n)[0], bindings(&s)[0]);
    assert_eq!(bindings(&n)[1].2, vec![("Room".to_string(), 12)]);
    assert_eq!(bindings(&s)[1].2, vec![("Room".to_string(), 11)]);
}

#[test]
fn drawn_reassignment_without_a_member_is_a_copy() {
    let s = Schedule::new(vec![
        s_assignment("Task", 1, &[("Room", 10), ("Slot", 20)]),
        s_assignment("Task", 2, &[("Room", 11)]),
    ]);
    let n = neighbor_by(&s, true, 0, 1, &"Room".to_string(), None);
    assert_eq!(bindings(&n), bindings(&s));
}

#[test]
fn drawn_swap_exchanges_between_different_assignments() {
    let s = Schedule::new(vec![
        s_assignment("Task", 1, &[("Room", 10), ("Slot", 20)]),
        s_assignment("Task", 2, &[("Room", 11)]),
        s_assignment("Task", 3, &[("Room", 12), ("Slot", 22)]),
    ]);
    let n = neighbor_by(&s, false, 0, 2, &"Slot".to_string(), Some(ItemId(24)));
    assert_eq!(bindings(&n)[0].2, vec![("Room".to_string(), 10), ("Slot".to_string(), 22)]);
    assert_eq!(bindings(&n)[1], bindings(&s)[1]);
    assert_eq!(bindings(&n)[2].2, vec![("Room".to_string(), 12), ("Slot".to_string(), 20)]);
    let same = neighbor_by(&s, false, 2, 2, &"Slot".to_string(), None);
    assert_eq!(bindings(&same), bindings(&s));
    let missing = neighbor_by(&s, false, 0, 1, &"Slot".to_string(), None);
    assert_eq!(bindings(&missing), bindings(&s));
    let unknown = neighbor_by(&s, false, 0, 2, &"Lecturer".to_string(), None);
    assert_eq!(bindings(&unknown), bindings(&s));
}

#[test]
fn swap_exchanges_what_two_assignments_bind() {
    let mut s = Schedule::new(vec![
        s_assignment("Task", 1, &[("Room", 10), ("Slot", 20)]),
        s_assignment("Task", 2, &[("Room", 11), ("Slot", 21)]),
        s_assignment("Task", 3, &[("Room", 12)]),
    ]);
    swap(&mut s, 0, 1, &"Room".to_string());
    assert_eq!(bindings(&s)[0].2, vec![("Room".to_string(), 11), ("Slot".to_string(), 20)]);
    assert_eq!(bindings(&s)[1].2, vec![("Room".to_string(), 10), ("Slot".to_string(), 21)]);
    assert_eq!(bindings(&s)[2].2, vec![("Room".to_string(), 12)]);
    swap(&mut s, 2, 0, &"Room".to_string());
    assert_eq!(bindings(&s)[0].2, vec![("Room".to_string(), 12), ("Slot".to_string(), 20)]);
    assert_eq!(bindings(&s)[2].2, vec![("Room".to_string(), 11)]);
}

#[test]
fn swap_needs_the_resource_on_both_sides() {
    let mut s = Schedule::new(vec![
        s_assignment("Task", 1, &[("Room", 10), ("Slot", 20)]),
        s_assignment("Task", 3, &[("Room", 12)]),
    ]);
    let before = bindings(&s);
    swap(&mut s, 0, 1, &"Slot".to_string());
    assert_eq!(bindings(&s), before);
    swap(&mut s, 1, 0, &"Slot".to_string());
    assert_eq!(bindings(&s), before);
    swap(&mut s, 0, 1, &"Lecturer".to_string());
    assert_eq!(bindings(&s), before);
}

#[test]
fn first_schedule_of_an_empty_problem_is_empty() {
    let p = s_problem(vec![]);
    let mut rng = StdRng::seed_from_u64(1);
    assert!(create_random_schedule(&p, &mut rng).is_empty());
    let only_resources = s_problem(vec![s_item("Room", SetType::E_Set, plain(&[1, 2]))]);
    assert!(create_random_schedule(&only_resources, &mut rng).is_empty());
}

#[test]
fn first_schedule_has_one_assignment_per_task() {
    let p = workshop();
    for seed in 0..20 {
        let mut rng = StdRng::seed_from_u64(seed);
        let s = create_random_schedule(&p, &mut rng);
        let b = bindings(&s);
        assert_eq!(b.len(), 4);
        for (i, (task, category, resources)) in b.iter().enumerate() {
            assert_eq!(*task, i as u32 + 1);
            assert_eq!(category, "Task");
            assert_eq!(resources.len(), 2);
            assert_eq!(resources[0].0, "Room");
            assert!((10..=12).contains(&resources[0].1));
            assert_eq!(resources[1].0, "Slot");
            assert!((20..=24).contains(&resources[1].1));
        }
    }
}

#[test]
fn first_schedule_takes_the_first_task_category() {
    let p = s_problem(vec![
        s_item("Room", SetType::E_Set, plain(&[10])),
        s_item("Lab", SetType::B_Set, plain(&[5, 6])),
        s_item("Lecture", SetType::B_Set, plain(&[1, 2, 3])),
    ]);
    let mut rng = StdRng::seed_from_u64(9);
    let b = bindings(&create_random_schedule(&p, &mut rng));
    assert_eq!(
        b,
        vec![
            (5, "Lab".to_string(), vec![("Room".to_string(), 10)]),
            (6, "Lab".to_string(), vec![("Room".to_string(), 10)]),
        ]
    );
}

#[test]
fn first_schedule_skips_resource_categories_without_members() {
    let p = s_problem(vec![
        s_item("Task", SetType::B_Set, plain(&[1])),
        s_item("Room", SetType::E_Set, vec![]),
        s_item("Slot", SetType::E_Set, plain(&[20])),
    ]);
    let mut rng = StdRng::seed_from_u64(4);
    let b = bindings(&create_random_schedule(&p, &mut rng));
    assert_eq!(b, vec![(1, "Task".to_string(), vec![("Slot".to_string(), 20)])]);
}

#[test]
fn first_schedule_of_a_task_category_without_members_is_empty() {
    let p = s_problem(vec![s_item("Task", SetType::B_Set, vec![]), s_item("Room", SetType::E_Set, plain(&[1]))]);
    let mut rng = StdRng::seed_from_u64(4);
    assert!(create_random_schedule(&p, &mut rng).is_empty());
}

#[test]
fn run_starts_with_the_first_schedule_as_current_and_best() {
    let p = workshop();
    let constraints = room_clashes();
    let s = Schedule::new(vec![
        s_assignment("Task", 1, &[("Room", 10), ("Slot", 20)]),
        s_assignment("Task", 2, &[("Room", 10), ("Slot", 20)]),
        s_assignment("Task", 3, &[("Room", 10), ("Slot", 20)]),
    ]);
    let expected = bindings(&s);
    let run = Annealing::new(&p, &constraints, s);
    assert_eq!(run.initial_cost(), 20);
    assert_eq!(run.current_cost(), 20);
    assert_eq!(run.best_cost(), 20);
    assert_eq!(bindings(run.current()), expected);
    assert_eq!(bindings(run.best()), expected);
}

fn clash(rooms: &[u32]) -> Schedule {
    Schedule::new(
        rooms.iter().enumerate().map(|(i, r)| s_assignment("Task", i as u32 + 1, &[("Room", *r), ("Slot", 20)])).collect(),
    )
}

#[test]
fn better_candidate_is_always_accepted() {
    let p = workshop();
    let constraints = room_clashes();
    let run = Annealing::new(&p, &constraints, clash(&[10, 10, 10]));
    let (run, delta) = run.consider(clash(&[10, 11, 10]));
    assert_eq!(delta, -10);
    let run = run.decide(false);
    assert_eq!(run.current_cost(), 10);
    assert_eq!(run.best_cost(), 10);
    assert_eq!(run.initial_cost(), 20);
    assert_eq!(bindings(run.current()), bindings(&clash(&[10, 11, 10])));
    assert_eq!(bindings(run.best()), bindings(&clash(&[10, 11, 10])));
}

#[test]
fn worse_candidate_is_accepted_only_when_told() {
    let p = workshop();
    let constraints = room_clashes();
    let run = Annealing::new(&p, &constraints, clash(&[10, 11, 10]));
    let (run, delta) = run.consider(clash(&[10, 10, 10]));
    assert_eq!(delta, 10);
    let run = run.decide(false);
    assert_eq!(run.current_cost(), 10);
    assert_eq!(bindings(run.current()), bindings(&clash(&[10, 11, 10])));
    let (run, delta) = run.consider(clash(&[10, 10, 10]));
    assert_eq!(delta, 10);
    let run = run.decide(true);
    assert_eq!(run.current_cost(), 20);
    assert_eq!(bindings(run.current()), bindings(&clash(&[10, 10, 10])));
    assert_eq!(run.best_cost(), 10);
    assert_eq!(bindings(run.best()), bindings(&clash(&[10, 11, 10])));
}

#[test]
fn equal_candidate_is_not_an_improvement() {
    let p = workshop();
    let constraints = room_clashes();
    let run = Annealing::new(&p, &constraints, clash(&[10, 11, 10]));
    let (run, delta) = run.consider(clash(&[11, 10, 11]));
    assert_eq!(delta, 0);
    let run = run.decide(false);
    assert_eq!(bindings(run.current()), bindings(&clash(&[10, 11, 10])));
    let (run, _) = run.consider(clash(&[11, 10, 11]));
    let run = run.decide(true);
    assert_eq!(bindings(run.current()), bindings(&clash(&[11, 10, 11])));
    assert_eq!(bindings(run.best()), bindings(&clash(&[10, 11, 10])));
    assert_eq!(run.best_cost(), 10);
}

#[test]
fn deciding_without_a_candidate_changes_nothing() {
    let p = workshop();
    let constraints = room_clashes();
    let run = Annealing::new(&p, &constraints, clash(&[10, 10])).decide(true);
    assert_eq!(run.current_cost(), 10);
    assert_eq!(bindings(run.current()), bindings(&clash(&[10, 10])));
    let (run, _) = run.consider(clash(&[10, 11]));
    let run = run.decide(false).decide(true);
    assert_eq!(run.current_cost(), 0);
    assert_eq!(run.best_cost(), 0);
}

#[test]
fn best_cost_never_rises() {
    let p = workshop();
    let constraints = room_clashes();
    let mut rng = StdRng::seed_from_u64(21);
    let first = create_random_schedule(&p, &mut rng);
    let mut run = Annealing::new(&p, &constraints, first);
    let initial = run.initial_cost();
    let mut best = run.best_cost();
    assert_eq!(best, initial);
    for step in 0..300 {
        let (next, delta) = run.propose(&mut rng);
        assert_eq!(next.best_cost(), best);
        let before = next.current_cost();
        run = next.decide(step % 3 == 0);
        assert!(run.best_cost() <= best);
        assert!(run.best_cost() <= initial);
        assert!(run.best_cost() <= run.current_cost());
        assert_eq!(run.current_cost(), evaluate_schedule(run.current(), &p, &constraints));
        assert_eq!(run.best_cost(), evaluate_schedule(run.best(), &p, &constraints));
        if step % 3 != 0 && delta >= 0 {
            assert_eq!(run.current_cost(), before);
        }
        if delta < 0 {
            assert_eq!(run.current_cost() as i64, before as i64 + delta);
        }
        best = run.best_cost();
    }
}

#[test]
fn greedy_descent_never_accepts_a_candidate_that_is_not_better() {
    let p = workshop();
    let constraints = room_clashes();
    let mut rng = StdRng::seed_from_u64(33);
    let mut run = Annealing::new(&p, &constraints, clash(&[10, 10, 10, 10]));
    let mut current = run.current_cost();
    assert_eq!(current, 30);
    for _ in 0..300 {
        let (next, delta) = run.propose(&mut rng);
        run = next.decide(false);
        if delta < 0 {
            assert_eq!(run.current_cost() as i64, current as i64 + delta);
        } else {
            assert_eq!(run.current_cost(), current);
        }
        assert_eq!(run.current_cost(), run.best_cost());
        current = run.current_cost();
    }
    assert_eq!(current, 0);
}

#[test]
fn instant_cooling_is_greedy_after_the_first_step() {
    let p = workshop();
    let constraints = room_clashes();
    let mut rng = StdRng::seed_from_u64(8);
    let mut run = Annealing::new(&p, &constraints, clash(&[10, 10, 10, 10]));
    let mut temperature: f64 = 5.0;
    for step in 0..200 {
        let before = run.current_cost();
        let (next, delta) = run.propose(&mut rng);
        let accept =
            delta < 0 || (temperature >= 1e-10 && rng.gen::<f64>() < (-(delta as f64) / temperature).exp());
        run = next.decide(accept);
        if step > 0 && delta >= 0 {
            assert_eq!(run.current_cost(), before);
        }
        temperature *= 0.0;
    }
}

#[test]
fn empty_problem() {
    let p = s_problem(vec![]);
    let constraints = room_clashes();
    let mut rng = StdRng::seed_from_u64(1);
    let first = create_random_schedule(&p, &mut rng);
    let (best, cost) = anneal(&p, &constraints, first, 1.0, 0.9, 10, &mut rng);
    assert!(best.assignments.is_empty());
    assert_eq!(cost, 0);
    assert_eq!(evaluate_schedule(&best, &p, &constraints), 0);
}

#[test]
fn solver_cannot_avoid_a_forced_violation() {
    let p = s_problem(vec![
        s_item("Task", SetType::B_Set, plain(&[1, 2, 3])),
        s_item("Worker", SetType::E_Set, plain(&[9])),
    ]);
    let constraints = vec![s_constraint(
        "one each",
        10,
        ConstraintRule::GlobalCardinality {
            target_item_field: "Worker:id".to_string(),
            max_count: 1,
            scope_conditions: None,
        },
    )];
    let mut rng = StdRng::seed_from_u64(5);
    let first = create_random_schedule(&p, &mut rng);
    assert_eq!(evaluate_schedule(&first, &p, &constraints), 20);
    let (best, cost) = anneal(&p, &constraints, first, 1.0, 0.9, 200, &mut rng);
    assert_eq!(cost, 20);
    assert_eq!(evaluate_schedule(&best, &p, &constraints), 20);
    assert_eq!(best.len(), 3);
}

#[test]
fn solver_keeps_singleton_groups_free_of_cost() {
    let p = s_problem(vec![
        s_item("Task", SetType::B_Set, plain(&[1, 2])),
        s_item("Slot", SetType::E_Set, plain(&[1, 2])),
    ]);
    let constraints = vec![s_constraint(
        "singletons",
        100,
        ConstraintRule::GlobalAllDifferent {
            unique_item_field: "Slot:id".to_string(),
            group_item_field: "Task:id".to_string(),
        },
    )];
    let mut rng = StdRng::seed_from_u64(12);
    let first = create_random_schedule(&p, &mut rng);
    let (best, cost) = anneal(&p, &constraints, first, 1.0, 0.9, 50, &mut rng);
    assert_eq!(cost, 0);
    assert_eq!(evaluate_schedule(&best, &p, &constraints), 0);
}

fn lunch_problem() -> (ProblemData, Vec<Constraint>) {
    let slot = |id: u32, start: &str| s_member(id, vec![("start", Value::Date(start.to_string()))]);
    let p = s_problem(vec![
        s_item("Course", SetType::B_Set, plain(&[1, 2])),
        s_item("TimeSlot", SetType::E_Set, vec![slot(1, "09:00"), slot(2, "12:00"), slot(3, "13:30")]),
    ]);
    let constraints = vec![s_constraint(
        "lunch",
        50,
        ConstraintRule::MultiAssignmentCheck {
            conditions: vec![Condition {
                item_name: "TimeSlot".to_string(),
                field_key: "start".to_string(),
                operator: ComparisonOperator::In,
                target_values: vec!["12:00".to_string()],
            }],
            logical_op: LogicalOperator::And,
            mode: ConstraintMode::Forbid,
        },
    )];
    (p, constraints)
}

#[test]
fn solver_leaves_the_forbidden_value() {
    let (p, constraints) = lunch_problem();
    for seed in 0..10 {
        let mut rng = StdRng::seed_from_u64(seed);
        let worst = Schedule::new(vec![
            s_assignment("Course", 1, &[("TimeSlot", 2)]),
            s_assignment("Course", 2, &[("TimeSlot", 2)]),
        ]);
        assert_eq!(evaluate_schedule(&worst, &p, &constraints), 100);
        let (best, cost) = anneal(&p, &constraints, worst, 1.0, 0.9, 400, &mut rng);
        assert_eq!(cost, 0);
        assert_eq!(evaluate_schedule(&best, &p, &constraints), 0);
    }
}

#[test]
fn same_seed_gives_the_same_result() {
    let p = workshop();
    let constraints = room_clashes();
    let solve = |seed: u64| {
        let mut rng = StdRng::seed_from_u64(seed);
        let first = create_random_schedule(&p, &mut rng);
        let (best, cost) = anneal(&p, &constraints, first, 2.0, 0.95, 150, &mut rng);
        (bindings(&best), cost)
    };
    assert_eq!(solve(17), solve(17));
    assert_eq!(solve(18), solve(18));
    let firsts: Vec<_> = (0..8u64)
        .map(|seed| bindings(&create_random_schedule(&p, &mut StdRng::seed_from_u64(seed))))
        .collect();
    assert!(firsts.iter().any(|f| *f != firsts[0]));
}

#[test]
fn run_starts_under_constraints_without_a_colon() {
    let p = workshop();
    let loose = vec![s_constraint(
        "no colon",
        4,
        ConstraintRule::GlobalCardinality {
            target_item_field: "Room".to_string(),
            max_count: 1,
            scope_conditions: None,
        },
    )];
    let run = Annealing::new(&p, &loose, clash(&[10, 11]));
    assert_eq!(run.initial_cost(), 4);
    assert_eq!(run.best_cost(), 4);
}
