//! The evaluator: from a schedule, a problem and constraints to a cost.

use super::counting::{
    count_where, increment, lemma_count_where_agree, occurrences, saturate, sum_to,
    surplus,
};
use super::semantics::{
    all_different_violations, all_hold, any_holds, bound_member, cardinality_violations,
    check_violated, compare_number_spec, compare_text_spec, compare_value_spec, condition_holds,
    counted_values, extracted_text, find_member, greatest, group_and_unique,
    id_number, in_scope, least, multi_assignment_violations, number_relates, pair_violates,
    referenced_text, rule_violations, schedule_cost, temporal_relation_holds,
    temporal_violations, text_relates, time_span, total_cost,
};
use crate::domain::constraint::{
    condition_views, constraint_views, field_part, find_colon,
    item_part, texts,
};
use crate::domain::{
    Assignment, ComparisonOperator, Condition, Constraint, ConstraintMode, ConstraintRule, ItemId,
    LogicalOperator, Member, ProblemData, Schedule, Value,
};
use crate::text::{
    parse_number, parse_number_spec, signed_to_text, str_eq, str_le, str_lt, unsigned_to_text,
};
use vstd::string::StrSliceExecFns;
use vstd::prelude::*;

verus! {

/// Whether `n` stands in the relation `op` to `target`.
fn number_relates_to(n: i32, op: &ComparisonOperator, target: i32) -> (r: bool)
    ensures
        r == number_relates(n, *op, target),
{
    match op {
        ComparisonOperator::Equal | ComparisonOperator::In => n == target,
        ComparisonOperator::NotEqual | ComparisonOperator::NotIn => n != target,
        ComparisonOperator::GreaterThan => n > target,
        ComparisonOperator::GreaterThanOrEqual => n >= target,
        ComparisonOperator::LessThan => n < target,
        ComparisonOperator::LessThanOrEqual => n <= target,
        _ => false,
    }
}

/// Whether `s` stands in the relation `op` to `target`.
fn text_relates_to(s: &str, op: &ComparisonOperator, target: &str) -> (r: bool)
    ensures
        r == text_relates(s@, *op, target@),
{
    match op {
        ComparisonOperator::Equal | ComparisonOperator::In => str_eq(s, target),
        ComparisonOperator::NotEqual | ComparisonOperator::NotIn => !str_eq(s, target),
        ComparisonOperator::GreaterThan | ComparisonOperator::After => str_lt(target, s),
        ComparisonOperator::GreaterThanOrEqual => str_le(target, s),
        ComparisonOperator::LessThan | ComparisonOperator::Before => str_lt(s, target),
        ComparisonOperator::LessThanOrEqual => str_le(s, target),
        _ => false,
    }
}

/// Compares a number with the targets that read as numbers.
fn compare_number(n: i32, op: &ComparisonOperator, targets: &[String]) -> (r: bool)
    ensures
        r == compare_number_spec(n, *op, texts(targets@)),
{
    let ghost ts = texts(targets@);
    let mut readable = false;
    let mut some = false;
    let mut every = true;
    let mut i: usize = 0;
    while i < targets.len()
        invariant
            i <= targets@.len(),
            ts == texts(targets@),
            readable == exists|j: int| 0 <= j < i && parse_number_spec(#[trigger] ts[j]) is Some,
            some == exists|j: int|
                0 <= j < i && parse_number_spec(#[trigger] ts[j]) is Some && number_relates(
                    n,
                    *op,
                    parse_number_spec(ts[j])->0,
                ),
            every == forall|j: int|
                0 <= j < i && parse_number_spec(#[trigger] ts[j]) is Some ==> number_relates(
                    n,
                    *op,
                    parse_number_spec(ts[j])->0,
                ),
        decreases targets@.len() - i,
    {
        assert(ts[i as int] == targets@[i as int]@);
        match parse_number(targets[i].as_str()) {
            Some(target) => {
                readable = true;
                if number_relates_to(n, op, target) {
                    some = true;
                } else {
                    every = false;
                }
            },
            None => {},
        }
        i += 1;
    }
    match op {
        ComparisonOperator::NotEqual | ComparisonOperator::NotIn => readable && every,
        _ => readable && some,
    }
}

/// The least of the targets.
fn least_target(targets: &[String]) -> (r: &String)
    requires
        targets@.len() > 0,
    ensures
        r@ == least(texts(targets@)),
{
    let ghost ts = texts(targets@);
    let mut best: &String = &targets[0];
    let mut i: usize = 1;
    while i < targets.len()
        invariant
            1 <= i <= targets@.len(),
            ts == texts(targets@),
            best@ == least(ts.take(i as int)),
        decreases targets@.len() - i,
    {
        assert(ts.take(i + 1).drop_last() =~= ts.take(i as int));
        if str_lt(targets[i].as_str(), best.as_str()) {
            best = &targets[i];
        }
        i += 1;
    }
    assert(ts.take(i as int) =~= ts);
    best
}

/// The greatest of the targets.
fn greatest_target(targets: &[String]) -> (r: &String)
    requires
        targets@.len() > 0,
    ensures
        r@ == greatest(texts(targets@)),
{
    let ghost ts = texts(targets@);
    let mut best: &String = &targets[0];
    let mut i: usize = 1;
    while i < targets.len()
        invariant
            1 <= i <= targets@.len(),
            ts == texts(targets@),
            best@ == greatest(ts.take(i as int)),
        decreases targets@.len() - i,
    {
        assert(ts.take(i + 1).drop_last() =~= ts.take(i as int));
        if str_lt(best.as_str(), targets[i].as_str()) {
            best = &targets[i];
        }
        i += 1;
    }
    assert(ts.take(i as int) =~= ts);
    best
}

/// Compares a text or a date with the targets.
fn compare_text(s: &str, op: &ComparisonOperator, targets: &[String]) -> (r: bool)
    ensures
        r == compare_text_spec(s@, *op, texts(targets@)),
{
    if targets.len() == 0 {
        return false;
    }
    match op {
        ComparisonOperator::Overlap => {
            let low = least_target(targets);
            let high = greatest_target(targets);
            str_le(low.as_str(), s) && str_le(s, high.as_str())
        },
        ComparisonOperator::NoOverlap => {
            let low = least_target(targets);
            let high = greatest_target(targets);
            str_lt(s, low.as_str()) || str_lt(high.as_str(), s)
        },
        _ => {
            let ghost ts = texts(targets@);
            let mut some = false;
            let mut every = true;
            let mut i: usize = 0;
            while i < targets.len()
                invariant
                    i <= targets@.len(),
                    ts == texts(targets@),
                    some == exists|j: int| 0 <= j < i && text_relates(s@, *op, #[trigger] ts[j]),
                    every == forall|j: int| 0 <= j < i ==> text_relates(s@, *op, #[trigger] ts[j]),
                decreases targets@.len() - i,
            {
                assert(ts[i as int] == targets@[i as int]@);
                if text_relates_to(s, op, targets[i].as_str()) {
                    some = true;
                } else {
                    every = false;
                }
                i += 1;
            }
            match op {
                ComparisonOperator::NotEqual | ComparisonOperator::NotIn => every,
                _ => some,
            }
        },
    }
}

/// Whether `value` stands in the relation `operator` to the targets.
///
/// A number is compared with the targets that read as 32-bit integers, and
/// fails if there is none. Texts and dates are compared in lexicographic
/// order and fail on an empty target list. `Equal`, `In` and the orderings
/// ask for some target, `NotEqual` and `NotIn` for every target; `Overlap`
/// and `NoOverlap` place a text within or outside the span of the targets,
/// and, like `Before` and `After`, never hold of a number.
pub fn compare_value(value: &Value, operator: &ComparisonOperator, targets: &[String]) -> (r: bool)
    ensures
        r == compare_value_spec(value@, *operator, texts(targets@)),
{
    match value {
        Value::Number(n) => compare_number(*n, operator, targets),
        Value::String(s) => compare_text(s.as_str(), operator, targets),
        Value::Date(d) => compare_text(d.as_str(), operator, targets),
    }
}

/// The first member of the category `item_name` with the given id.
fn lookup_member<'a>(problem: &'a ProblemData, item_name: &str, id: ItemId) -> (r: Option<&'a Member>)
    ensures
        match r {
            Some(m) => find_member(problem@, item_name@, id) == Some(m@),
            None => find_member(problem@, item_name@, id) is None,
        },
{
    match problem.item_categories.get(item_name) {
        None => None,
        Some(item) => {
            match item.position_of(id) {
                Some(k) => {
                    Some(&item.members[k])
                },
                None => None,
            }
        },
    }
}

/// The member that the assignment binds in the category `item_name`.
fn bound_id(assignment: &Assignment, item_name: &str) -> (r: Option<ItemId>)
    ensures
        r == bound_member(assignment@, item_name@),
{
    if str_eq(item_name, assignment.task_item_name.as_str()) {
        Some(assignment.task_id)
    } else {
        match assignment.resources.get(item_name) {
            Some(id) => Some(*id),
            None => None,
        }
    }
}

/// An id as a signed number, wrapped around beyond the largest `i32`.
fn id_to_number(id: ItemId) -> (n: i32)
    ensures
        n == id_number(id),
{
    if id.0 <= 0x7fff_ffff {
        id.0 as i32
    } else {
        ((id.0 - 0x8000_0000) as i32) + i32::MIN
    }
}

/// Whether the condition holds of the assignment.
///
/// The condition reads one field of the member that the assignment binds in
/// the condition's category, the task's own category included. It fails when
/// no member is bound there, when the category or the member does not exist,
/// and when the member lacks the field; the pseudo-field `id` is the
/// member's id as a number.
pub fn evaluate_condition(condition: &Condition, assignment: &Assignment, problem_data: &ProblemData) -> (r:
    bool)
    ensures
        r == condition_holds(condition@, assignment@, problem_data@),
{
    let member_id = match bound_id(assignment, condition.item_name.as_str()) {
        Some(id) => id,
        None => {
            return false;
        },
    };
    let member = match lookup_member(problem_data, condition.item_name.as_str(), member_id) {
        Some(m) => m,
        None => {
            return false;
        },
    };
    if str_eq(condition.field_key.as_str(), "id") {
        let value = Value::Number(id_to_number(member.id));
        compare_value(&value, &condition.operator, condition.target_values.as_slice())
    } else {
        match member.fields.get(condition.field_key.as_str()) {
            Some(value) => compare_value(value, &condition.operator, condition.target_values.as_slice()),
            None => false,
        }
    }
}

/// The text of one field of the member that the assignment binds in the
/// category `item_name`.
///
/// The member is resolved as for a condition: the task itself or the bound
/// resource, in its category, by its id. The pseudo-field `id` is the
/// member's id in decimal, and a number is rendered in decimal. The empty
/// text stands for whatever is missing: the binding, the category, the
/// member or the field.
pub fn extract_field_value(
    assignment: &Assignment,
    problem_data: &ProblemData,
    item_name: &str,
    field_key: &str,
) -> (r: String)
    ensures
        r@ == extracted_text(assignment@, problem_data@, item_name@, field_key@),
{
    let member_id = match bound_id(assignment, item_name) {
        Some(id) => id,
        None => {
            return String::new();
        },
    };
    let member = match lookup_member(problem_data, item_name, member_id) {
        Some(m) => m,
        None => {
            return String::new();
        },
    };
    if str_eq(field_key, "id") {
        return unsigned_to_text(member.id.0);
    }
    match member.fields.get(field_key) {
        Some(Value::String(s)) => s.clone(),
        Some(Value::Number(n)) => signed_to_text(*n),
        Some(Value::Date(d)) => d.clone(),
        None => String::new(),
    }
}

/// The date in the field `field` of a member.
fn date_of<'a>(member: &'a Member, field: &str) -> (r: Option<&'a String>)
    ensures
        match r {
            Some(d) => crate::application::semantics::date_field(member@, field@) == Some(d@),
            None => crate::application::semantics::date_field(member@, field@) is None,
        },
{
    match member.fields.get(field) {
        Some(Value::Date(d)) => Some(d),
        _ => None,
    }
}

/// The start and the end of the time slot that the assignment is bound to.
fn time_span_of<'a>(assignment: &Assignment, problem_data: &'a ProblemData, temporal_fields: &[String]) -> (r:
    Option<(&'a String, &'a String)>)
    ensures
        match r {
            Some(span) => time_span(assignment@, problem_data@, texts(temporal_fields@)) == Some(
                (span.0@, span.1@),
            ),
            None => time_span(assignment@, problem_data@, texts(temporal_fields@)) is None,
        },
{
    if temporal_fields.len() == 0 || temporal_fields.len() > 2 {
        return None;
    }
    let slot_id = match assignment.resources.get("TimeSlot") {
        Some(id) => *id,
        None => {
            return None;
        },
    };
    let member = match lookup_member(problem_data, "TimeSlot", slot_id) {
        Some(m) => m,
        None => {
            return None;
        },
    };
    let last = temporal_fields.len() - 1;
    let start = match date_of(member, temporal_fields[0].as_str()) {
        Some(d) => d,
        None => {
            return None;
        },
    };
    let end = match date_of(member, temporal_fields[last].as_str()) {
        Some(d) => d,
        None => {
            return None;
        },
    };
    Some((start, end))
}

/// Whether the time slots of two assignments stand in the relation.
///
/// Each assignment's slot is the member of the category `TimeSlot` bound
/// under that name. `temporal_fields` names the field that is both start and
/// end of a slot, or the start field and the end field. `Before` asks that
/// the first ends before the second starts, `After` that the first starts
/// after the second ends, `Overlap` that each starts before the other ends,
/// `NoOverlap` the contrary; the equalities and orderings compare the two
/// starts. The relation does not hold under `In` or `NotIn`, with no or more
/// than two field names, or where a slot or a date is missing.
pub fn check_temporal_relation(
    first: &Assignment,
    second: &Assignment,
    problem_data: &ProblemData,
    relation: &ComparisonOperator,
    temporal_fields: &[String],
) -> (r: bool)
    ensures
        r == temporal_relation_holds(first@, second@, problem_data@, *relation, texts(temporal_fields@)),
{
    let (first_start, first_end) = match time_span_of(first, problem_data, temporal_fields) {
        Some(span) => span,
        None => {
            return false;
        },
    };
    let (second_start, second_end) = match time_span_of(second, problem_data, temporal_fields) {
        Some(span) => span,
        None => {
            return false;
        },
    };
    let first_start = first_start.as_str();
    let first_end = first_end.as_str();
    let second_start = second_start.as_str();
    let second_end = second_end.as_str();
    match relation {
        ComparisonOperator::Before => str_lt(first_end, second_start),
        ComparisonOperator::After => str_lt(second_end, first_start),
        ComparisonOperator::Overlap => str_lt(first_start, second_end) && str_lt(second_start, first_end),
        ComparisonOperator::NoOverlap => !(str_lt(first_start, second_end) && str_lt(
            second_start,
            first_end,
        )),
        ComparisonOperator::Equal => str_eq(first_start, second_start),
        ComparisonOperator::NotEqual => !str_eq(first_start, second_start),
        ComparisonOperator::GreaterThan => str_lt(second_start, first_start),
        ComparisonOperator::GreaterThanOrEqual => str_le(second_start, first_start),
        ComparisonOperator::LessThan => str_lt(first_start, second_start),
        ComparisonOperator::LessThanOrEqual => str_le(first_start, second_start),
        _ => false,
    }
}

/// The first position at or after `from` at which `s` holds a colon, or the
/// number of its characters.
fn colon_position(s: &str, from: usize, len: usize) -> (r: usize)
    requires
        len == s@.len(),
    ensures
        r == find_colon(s@, from as int),
        from <= len ==> from <= r <= len,
{
    let mut i: usize = from;
    while i < len
        invariant
            len == s@.len(),
            from <= i,
            find_colon(s@, from as int) == find_colon(s@, i as int),
        decreases len - i,
    {
        if s.get_char(i) == ':' {
            return i;
        }
        i += 1;
    }
    len
}

/// Splits an item-field reference `<ItemName>:<field_key>` into the item
/// name, before the first colon, and the field key, after it up to the next
/// colon or the end. A text without a colon is an item name as a whole, with
/// the empty field key.
pub fn parse_item_field(item_field: &str) -> (r: (String, String))
    ensures
        r.0@ == item_part(item_field@),
        r.1@ == field_part(item_field@),
{
    let len = item_field.unicode_len();
    let colon = colon_position(item_field, 0, len);
    if colon == len {
        assert(item_field@.subrange(0, len as int) =~= item_field@);
        return (item_field.to_owned(), String::new());
    }
    let next = colon_position(item_field, colon + 1, len);
    let item = item_field.substring_char(0, colon).to_owned();
    let field = item_field.substring_char(colon + 1, next).to_owned();
    (item, field)
}

/// Whether every condition holds of the assignment.
fn all_conditions_hold(conditions: &[Condition], assignment: &Assignment, problem_data: &ProblemData) -> (r:
    bool)
    ensures
        r == all_hold(condition_views(conditions@), assignment@, problem_data@),
{
    let ghost cs = condition_views(conditions@);
    let mut i: usize = 0;
    while i < conditions.len()
        invariant
            i <= conditions@.len(),
            cs == condition_views(conditions@),
            forall|j: int| 0 <= j < i ==> condition_holds(#[trigger] cs[j], assignment@, problem_data@),
        decreases conditions@.len() - i,
    {
        assert(cs[i as int] == conditions@[i as int]@);
        if !evaluate_condition(&conditions[i], assignment, problem_data) {
            return false;
        }
        i += 1;
    }
    true
}

/// Whether some condition holds of the assignment.
fn any_condition_holds(conditions: &[Condition], assignment: &Assignment, problem_data: &ProblemData) -> (r:
    bool)
    ensures
        r == any_holds(condition_views(conditions@), assignment@, problem_data@),
{
    let ghost cs = condition_views(conditions@);
    let mut i: usize = 0;
    while i < conditions.len()
        invariant
            i <= conditions@.len(),
            cs == condition_views(conditions@),
            forall|j: int| 0 <= j < i ==> !condition_holds(#[trigger] cs[j], assignment@, problem_data@),
        decreases conditions@.len() - i,
    {
        assert(cs[i as int] == conditions@[i as int]@);
        if evaluate_condition(&conditions[i], assignment, problem_data) {
            return true;
        }
        i += 1;
    }
    false
}

/// The violations of a per-assignment check.
///
/// The conditions are combined with `And` (all hold; true of no conditions)
/// or `Or` (some holds). Under `Forbid` every assignment of which the
/// combination holds counts once, under `Require` every one of which it does
/// not. The count stops at the largest `u32`.
pub fn evaluate_multi_assignment(
    schedule: &Schedule,
    problem_data: &ProblemData,
    conditions: &[Condition],
    logical_op: &LogicalOperator,
    mode: &ConstraintMode,
) -> (violations: u32)
    ensures
        violations == saturate(
            multi_assignment_violations(
                schedule@,
                problem_data@,
                condition_views(conditions@),
                *logical_op,
                *mode,
            ),
        ),
{
    let ghost cs = condition_views(conditions@);
    let ghost violated = |k: int| check_violated(cs, *logical_op, *mode, schedule@[k], problem_data@);
    let mut violations: u32 = 0;
    let mut i: usize = 0;
    while i < schedule.assignments.len()
        invariant
            i <= schedule.assignments@.len(),
            cs == condition_views(conditions@),
            violated == |k: int| check_violated(cs, *logical_op, *mode, schedule@[k], problem_data@),
            violations == saturate(count_where(i as nat, violated)),
        decreases schedule.assignments@.len() - i,
    {
        let assignment = &schedule.assignments[i];
        let combined = match logical_op {
            LogicalOperator::And => all_conditions_hold(conditions, assignment, problem_data),
            LogicalOperator::Or => any_condition_holds(conditions, assignment, problem_data),
        };
        let counts = match mode {
            ConstraintMode::Forbid => combined,
            ConstraintMode::Require => !combined,
        };
        if counts {
            violations = increment(violations);
        }
        i += 1;
    }
    violations
}

/// For each assignment, the text that the item-field reference extracts.
fn referenced_texts(schedule: &Schedule, problem_data: &ProblemData, item_field: &str) -> (r: Vec<String>)
    ensures
        r@.len() == schedule@.len(),
        forall|i: int|
            0 <= i < r@.len() ==> (#[trigger] r@[i])@ == referenced_text(
                schedule@[i],
                problem_data@,
                item_field@,
            ),
{
    let (item, field) = parse_item_field(item_field);
    let mut r: Vec<String> = Vec::new();
    let mut i: usize = 0;
    while i < schedule.assignments.len()
        invariant
            i <= schedule.assignments@.len(),
            item@ == item_part(item_field@),
            field@ == field_part(item_field@),
            r@.len() == i,
            forall|j: int|
                0 <= j < i ==> (#[trigger] r@[j])@ == referenced_text(
                    schedule@[j],
                    problem_data@,
                    item_field@,
                ),
        decreases schedule.assignments@.len() - i,
    {
        r.push(extract_field_value(&schedule.assignments[i], problem_data, item.as_str(), field.as_str()));
        i += 1;
    }
    r
}

/// The violations of an all-different rule.
///
/// Assignments are grouped by the text of the grouping field. Within a
/// group, each assignment whose unique field has a text that an earlier
/// assignment of the group already has counts once: per group, its size less
/// the number of distinct texts. Missing fields yield the empty text, for
/// the group as for the value. The count stops at the largest `u32`.
pub fn evaluate_all_different(
    schedule: &Schedule,
    problem_data: &ProblemData,
    unique_item_field: &str,
    group_item_field: &str,
) -> (violations: u32)
    ensures
        violations == saturate(
            all_different_violations(schedule@, problem_data@, unique_item_field@, group_item_field@),
        ),
{
    let groups = referenced_texts(schedule, problem_data, group_item_field);
    let uniques = referenced_texts(schedule, problem_data, unique_item_field);
    let ghost pairs = group_and_unique(schedule@, problem_data@, unique_item_field@, group_item_field@);
    let n = schedule.assignments.len();
    let mut violations: u32 = 0;
    let mut i: usize = 0;
    while i < n
        invariant
            i <= n,
            n == schedule@.len(),
            groups@.len() == n,
            uniques@.len() == n,
            pairs.len() == n,
            forall|k: int| 0 <= k < n ==> #[trigger] pairs[k] == Some((groups@[k]@, uniques@[k]@)),
            violations == saturate(surplus(pairs.take(i as int), 1)),
        decreases n - i,
    {
        let mut seen = false;
        let mut j: usize = 0;
        while j < i
            invariant
                j <= i < n,
                groups@.len() == n,
                uniques@.len() == n,
                pairs.len() == n,
                forall|k: int| 0 <= k < n ==> #[trigger] pairs[k] == Some((groups@[k]@, uniques@[k]@)),
                seen == (occurrences(pairs.take(j as int), pairs[i as int]) >= 1),
            decreases i - j,
        {
            assert(pairs.take(j + 1).drop_last() =~= pairs.take(j as int));
            if str_eq(groups[j].as_str(), groups[i].as_str()) && str_eq(
                uniques[j].as_str(),
                uniques[i].as_str(),
            ) {
                seen = true;
            }
            j += 1;
        }
        proof {
            let next = pairs.take(i + 1);
            assert(next.take(i as int) =~= pairs.take(i as int));
        }
        if seen {
            violations = increment(violations);
        }
        i += 1;
    }
    assert(pairs.take(n as int) =~= pairs);
    violations
}

/// The violations of a cardinality rule.
///
/// With scope conditions, only the assignments of which all of them hold are
/// counted. Each text of the target field may occur `max_count` times among
/// them; every further occurrence counts once, so a text that occurs `c`
/// times contributes `c - max_count` where that is positive. The count stops
/// at the largest `u32`.
pub fn evaluate_cardinality(
    schedule: &Schedule,
    problem_data: &ProblemData,
    target_item_field: &str,
    max_count: u32,
    scope_conditions: &Option<Vec<Condition>>,
) -> (violations: u32)
    ensures
        violations == saturate(
            cardinality_violations(
                schedule@,
                problem_data@,
                target_item_field@,
                max_count,
                match scope_conditions {
                    Some(conditions) => Some(condition_views(conditions@)),
                    None => None,
                },
            ),
        ),
{
    let ghost scope = match scope_conditions {
        Some(conditions) => Some(condition_views(conditions@)),
        None => None,
    };
    let ghost counted = counted_values(schedule@, problem_data@, target_item_field@, scope);
    let texts_of = referenced_texts(schedule, problem_data, target_item_field);
    let n = schedule.assignments.len();
    let mut scoped: Vec<bool> = Vec::new();
    let mut k: usize = 0;
    while k < n
        invariant
            k <= n,
            n == schedule.assignments@.len(),
            scope == match scope_conditions {
                Some(conditions) => Some(condition_views(conditions@)),
                None => None,
            },
            scoped@.len() == k,
            forall|j: int| 0 <= j < k ==> #[trigger] scoped@[j] == in_scope(schedule@[j], problem_data@, scope),
        decreases n - k,
    {
        let inside = match scope_conditions {
            Some(conditions) => all_conditions_hold(
                conditions.as_slice(),
                &schedule.assignments[k],
                problem_data,
            ),
            None => true,
        };
        scoped.push(inside);
        k += 1;
    }
    let mut violations: u32 = 0;
    let mut i: usize = 0;
    while i < n
        invariant
            i <= n,
            n == schedule@.len(),
            texts_of@.len() == n,
            scoped@.len() == n,
            counted.len() == n,
            forall|k: int|
                0 <= k < n ==> #[trigger] counted[k] == (if scoped@[k] {
                    Some(texts_of@[k]@)
                } else {
                    None
                }),
            violations == saturate(surplus(counted.take(i as int), max_count as nat)),
        decreases n - i,
    {
        let mut before: u32 = 0;
        if scoped[i] {
            let mut j: usize = 0;
            while j < i
                invariant
                    j <= i < n,
                    texts_of@.len() == n,
                    scoped@.len() == n,
                    counted.len() == n,
                    scoped@[i as int],
                    forall|k: int|
                        0 <= k < n ==> #[trigger] counted[k] == (if scoped@[k] {
                            Some(texts_of@[k]@)
                        } else {
                            None
                        }),
                    before == saturate(occurrences(counted.take(j as int), counted[i as int])),
                decreases i - j,
            {
                assert(counted.take(j + 1).drop_last() =~= counted.take(j as int));
                if scoped[j] && str_eq(texts_of[j].as_str(), texts_of[i].as_str()) {
                    before = increment(before);
                }
                j += 1;
            }
        }
        proof {
            let next = counted.take(i + 1);
            assert(next.take(i as int) =~= counted.take(i as int));
        }
        if scoped[i] && before >= max_count {
            violations = increment(violations);
        }
        i += 1;
    }
    assert(counted.take(n as int) =~= counted);
    violations
}

/// For each assignment, whether all the conditions hold of it.
fn conditions_met(schedule: &Schedule, problem_data: &ProblemData, conditions: &[Condition]) -> (r: Vec<bool>)
    ensures
        r@.len() == schedule@.len(),
        forall|i: int|
            0 <= i < r@.len() ==> #[trigger] r@[i] == all_hold(
                condition_views(conditions@),
                schedule@[i],
                problem_data@,
            ),
{
    let mut r: Vec<bool> = Vec::new();
    let mut i: usize = 0;
    while i < schedule.assignments.len()
        invariant
            i <= schedule.assignments@.len(),
            r@.len() == i,
            forall|j: int|
                0 <= j < i ==> #[trigger] r@[j] == all_hold(
                    condition_views(conditions@),
                    schedule@[j],
                    problem_data@,
                ),
        decreases schedule.assignments@.len() - i,
    {
        r.push(all_conditions_hold(conditions, &schedule.assignments[i], problem_data));
        i += 1;
    }
    r
}

/// The violations of a temporal rule.
///
/// Assignments are grouped by the text of the grouping field. Within a
/// group, every ordered pair of an assignment that meets all the first
/// conditions and one that meets all the second conditions, an assignment
/// paired with itself included, counts once if their time slots do not stand
/// in the relation. The count stops at the largest `u32`.
pub fn evaluate_temporal_precedence(
    schedule: &Schedule,
    problem_data: &ProblemData,
    grouping_item_field: &str,
    first_conditions: &[Condition],
    second_conditions: &[Condition],
    temporal_relation: &ComparisonOperator,
    temporal_fields: &[String],
) -> (violations: u32)
    ensures
        violations == saturate(
            temporal_violations(
                schedule@,
                problem_data@,
                grouping_item_field@,
                condition_views(first_conditions@),
                condition_views(second_conditions@),
                *temporal_relation,
                texts(temporal_fields@),
            ),
        ),
{
    let groups = referenced_texts(schedule, problem_data, grouping_item_field);
    let firsts = conditions_met(schedule, problem_data, first_conditions);
    let seconds = conditions_met(schedule, problem_data, second_conditions);
    let n = schedule.assignments.len();
    let ghost violates = |a: int, b: int|
        pair_violates(
            schedule@[a],
            schedule@[b],
            problem_data@,
            grouping_item_field@,
            condition_views(first_conditions@),
            condition_views(second_conditions@),
            *temporal_relation,
            texts(temporal_fields@),
        );
    let ghost row = |a: int| count_where(n as nat, |b: int| violates(a, b));
    let mut violations: u32 = 0;
    let mut i: usize = 0;
    while i < n
        invariant
            i <= n,
            n == schedule.assignments@.len(),
            groups@.len() == n,
            firsts@.len() == n,
            seconds@.len() == n,
            forall|k: int|
                0 <= k < n ==> (#[trigger] groups@[k])@ == referenced_text(
                    schedule@[k],
                    problem_data@,
                    grouping_item_field@,
                ),
            forall|k: int|
                0 <= k < n ==> #[trigger] firsts@[k] == all_hold(
                    condition_views(first_conditions@),
                    schedule@[k],
                    problem_data@,
                ),
            forall|k: int|
                0 <= k < n ==> #[trigger] seconds@[k] == all_hold(
                    condition_views(second_conditions@),
                    schedule@[k],
                    problem_data@,
                ),
            violates == |a: int, b: int|
                pair_violates(
                    schedule@[a],
                    schedule@[b],
                    problem_data@,
                    grouping_item_field@,
                    condition_views(first_conditions@),
                    condition_views(second_conditions@),
                    *temporal_relation,
                    texts(temporal_fields@),
                ),
            row == |a: int| count_where(n as nat, |b: int| violates(a, b)),
            violations == saturate(sum_to(i as nat, row)),
        decreases n - i,
    {
        let ghost in_row = |b: int| violates(i as int, b);
        let ghost above = sum_to(i as nat, row);
        let mut j: usize = 0;
        while j < n
            invariant
                j <= n,
                i < n,
                n == schedule.assignments@.len(),
                groups@.len() == n,
                firsts@.len() == n,
                seconds@.len() == n,
                forall|k: int|
                    0 <= k < n ==> (#[trigger] groups@[k])@ == referenced_text(
                        schedule@[k],
                        problem_data@,
                        grouping_item_field@,
                    ),
                forall|k: int|
                    0 <= k < n ==> #[trigger] firsts@[k] == all_hold(
                        condition_views(first_conditions@),
                        schedule@[k],
                        problem_data@,
                    ),
                forall|k: int|
                    0 <= k < n ==> #[trigger] seconds@[k] == all_hold(
                        condition_views(second_conditions@),
                        schedule@[k],
                        problem_data@,
                    ),
                violates == |a: int, b: int|
                    pair_violates(
                        schedule@[a],
                        schedule@[b],
                        problem_data@,
                        grouping_item_field@,
                        condition_views(first_conditions@),
                        condition_views(second_conditions@),
                        *temporal_relation,
                        texts(temporal_fields@),
                    ),
                in_row == |b: int| violates(i as int, b),
                violations == saturate(above + count_where(j as nat, in_row)),
            decreases n - j,
        {
            let counts = firsts[i] && seconds[j] && str_eq(groups[i].as_str(), groups[j].as_str())
                && !check_temporal_relation(
                &schedule.assignments[i],
                &schedule.assignments[j],
                problem_data,
                temporal_relation,
                temporal_fields,
            );
            if counts {
                violations = increment(violations);
            }
            j += 1;
        }
        assert(row(i as int) == count_where(n as nat, in_row)) by {
            lemma_count_where_agree(n as nat, in_row, |b: int| violates(i as int, b));
        }
        i += 1;
    }
    violations
}

/// The number of violations of a rule in a schedule, up to the largest
/// `u32`.
pub fn evaluate_constraint(rule: &ConstraintRule, schedule: &Schedule, problem_data: &ProblemData) -> (violations:
    u32)
    ensures
        violations == saturate(rule_violations(rule@, schedule@, problem_data@)),
{
    match rule {
        ConstraintRule::MultiAssignmentCheck { conditions, logical_op, mode } => {
            evaluate_multi_assignment(schedule, problem_data, conditions.as_slice(), logical_op, mode)
        },
        ConstraintRule::GlobalAllDifferent { unique_item_field, group_item_field } => {
            evaluate_all_different(
                schedule,
                problem_data,
                unique_item_field.as_str(),
                group_item_field.as_str(),
            )
        },
        ConstraintRule::GlobalCardinality { target_item_field, max_count, scope_conditions } => {
            evaluate_cardinality(
                schedule,
                problem_data,
                target_item_field.as_str(),
                *max_count,
                scope_conditions,
            )
        },
        ConstraintRule::GlobalTemporalPrecedence {
            grouping_item_field,
            first_conditions,
            second_conditions,
            temporal_relation,
            temporal_fields,
        } => evaluate_temporal_precedence(
            schedule,
            problem_data,
            grouping_item_field.as_str(),
            first_conditions.as_slice(),
            second_conditions.as_slice(),
            temporal_relation,
            temporal_fields.as_slice(),
        ),
    }
}

/// Adding a weighted count to a total commutes with holding both at the
/// largest `u32`.
proof fn lemma_saturated_step(total: nat, violations: nat, weight: u32)
    ensures
        saturate(violations) * weight <= 0xffff_ffff * 0xffff_ffff,
        saturate(total + violations * (weight as nat)) == saturate(
            (saturate(total) + saturate((saturate(violations) * weight) as nat)) as nat,
        ),
{
    let capped = saturate(violations) as int;
    let w = weight as int;
    assert(capped * w <= 0xffff_ffff * 0xffff_ffff) by (nonlinear_arith)
        requires
            0 <= capped <= 0xffff_ffff,
            0 <= w <= 0xffff_ffff,
    ;
    assert(0 <= capped * w) by (nonlinear_arith)
        requires
            0 <= capped,
            0 <= w,
    ;
    if violations > u32::MAX {
        if w >= 1 {
            assert(capped * w >= capped) by (nonlinear_arith)
                requires
                    w >= 1,
                    capped >= 0,
            ;
            assert(violations * w >= violations) by (nonlinear_arith)
                requires
                    w >= 1,
                    violations >= 0,
            ;
        } else {
            assert(capped * w == 0 && violations * w == 0) by (nonlinear_arith)
                requires
                    w == 0,
            ;
        }
    }
}

/// The cost of a schedule: over all constraints, the violations of the rule
/// times the weight of the constraint.
///
/// The sum is computed without overflow and held at the largest `u32` where
/// it would exceed it. It is 0 when there are no constraints.
pub fn evaluate_schedule(schedule: &Schedule, problem_data: &ProblemData, constraints: &[Constraint]) -> (cost:
    u32)
    ensures
        cost == schedule_cost(schedule@, problem_data@, constraint_views(constraints@)),
        total_cost(schedule@, problem_data@, constraint_views(constraints@)) <= u32::MAX ==> cost
            == total_cost(schedule@, problem_data@, constraint_views(constraints@)),
        constraints@.len() == 0 ==> cost == 0,
{
    let ghost cs = constraint_views(constraints@);
    let mut total_cost: u32 = 0;
    let mut i: usize = 0;
    while i < constraints.len()
        invariant
            i <= constraints@.len(),
            cs == constraint_views(constraints@),
            total_cost == saturate(self::total_cost(schedule@, problem_data@, cs.take(i as int))),
        decreases constraints@.len() - i,
    {
        let constraint = &constraints[i];
        assert(cs[i as int] == constraint@);
        let violations = evaluate_constraint(&constraint.rule, schedule, problem_data);
        proof {
            let next = cs.take(i + 1);
            assert(next.drop_last() =~= cs.take(i as int));
            lemma_saturated_step(
                self::total_cost(schedule@, problem_data@, cs.take(i as int)),
                rule_violations(constraint@.rule, schedule@, problem_data@),
                constraint.weight,
            );
        }
        let weighted: u64 = (violations as u64) * (constraint.weight as u64);
        let capped: u64 = if weighted > 0xffff_ffff {
            0xffff_ffff
        } else {
            weighted
        };
        let sum: u64 = total_cost as u64 + capped;
        total_cost = if sum > 0xffff_ffff {
            0xffff_ffff
        } else {
            sum as u32
        };
        i += 1;
    }
    assert(cs.take(i as int) =~= cs);
    total_cost
}

} // verus!
