//! What the constraint language means: for each rule, the number of
//! violations that a schedule has under it, and the weighted total.

use super::counting::{count_pairs, count_where, saturate, surplus};
use crate::domain::{
    AssignmentView, ComparisonOperator, ConditionView, ConstraintMode, ConstraintRuleView,
    ConstraintView, ItemId, LogicalOperator, MemberView, ProblemView, ValueView,
};
use crate::domain::constraint::{field_part, item_part};
use crate::domain::item::first_with_id;
use crate::text::{decimal, parse_number_spec, text_le, text_lt};
use vstd::prelude::*;

verus! {

/// The relation that a comparison operator states between a number and one
/// target. The temporal and interval operators relate no numbers.
pub open spec fn number_relates(n: i32, op: ComparisonOperator, target: i32) -> bool {
    match op {
        ComparisonOperator::Equal | ComparisonOperator::In => n == target,
        ComparisonOperator::NotEqual | ComparisonOperator::NotIn => n != target,
        ComparisonOperator::GreaterThan => n > target,
        ComparisonOperator::GreaterThanOrEqual => n >= target,
        ComparisonOperator::LessThan => n < target,
        ComparisonOperator::LessThanOrEqual => n <= target,
        _ => false,
    }
}

/// The relation that a comparison operator states between a text and one
/// target, in lexicographic order; `Before` and `After` read as `<` and `>`.
/// The interval operators relate a text to all targets at once, not to one.
pub open spec fn text_relates(s: Seq<char>, op: ComparisonOperator, target: Seq<char>) -> bool {
    match op {
        ComparisonOperator::Equal | ComparisonOperator::In => s == target,
        ComparisonOperator::NotEqual | ComparisonOperator::NotIn => s != target,
        ComparisonOperator::GreaterThan | ComparisonOperator::After => text_lt(target, s),
        ComparisonOperator::GreaterThanOrEqual => text_le(target, s),
        ComparisonOperator::LessThan | ComparisonOperator::Before => text_lt(s, target),
        ComparisonOperator::LessThanOrEqual => text_le(s, target),
        _ => false,
    }
}

/// The operators that ask for every target rather than for some target.
pub open spec fn asks_for_all(op: ComparisonOperator) -> bool {
    op is NotEqual || op is NotIn
}

/// The least of a non-empty sequence of texts.
pub open spec fn least(targets: Seq<Seq<char>>) -> Seq<char>
    decreases targets.len(),
{
    if targets.len() <= 1 {
        targets[0]
    } else {
        let rest = least(targets.drop_last());
        if text_lt(targets.last(), rest) {
            targets.last()
        } else {
            rest
        }
    }
}

/// The greatest of a non-empty sequence of texts.
pub open spec fn greatest(targets: Seq<Seq<char>>) -> Seq<char>
    decreases targets.len(),
{
    if targets.len() <= 1 {
        targets[0]
    } else {
        let rest = greatest(targets.drop_last());
        if text_lt(rest, targets.last()) {
            targets.last()
        } else {
            rest
        }
    }
}

/// A number against targets. Targets that do not read as a 32-bit integer are
/// skipped; if none reads as one, the comparison fails.
pub open spec fn compare_number_spec(n: i32, op: ComparisonOperator, targets: Seq<Seq<char>>) -> bool {
    &&& exists|i: int| 0 <= i < targets.len() && parse_number_spec(#[trigger] targets[i]) is Some
    &&& if asks_for_all(op) {
        forall|i: int|
            0 <= i < targets.len() && parse_number_spec(#[trigger] targets[i]) is Some
                ==> number_relates(n, op, parse_number_spec(targets[i])->0)
    } else {
        exists|i: int|
            0 <= i < targets.len() && parse_number_spec(#[trigger] targets[i]) is Some
                && number_relates(n, op, parse_number_spec(targets[i])->0)
    }
}

/// A text or a date against targets. Without targets the comparison fails.
/// `Overlap` asks that the text lies within the interval that the targets
/// span, from the least to the greatest; `NoOverlap` that it lies outside.
pub open spec fn compare_text_spec(s: Seq<char>, op: ComparisonOperator, targets: Seq<Seq<char>>) -> bool {
    &&& targets.len() > 0
    &&& match op {
        ComparisonOperator::Overlap => text_le(least(targets), s) && text_le(s, greatest(targets)),
        ComparisonOperator::NoOverlap => text_lt(s, least(targets)) || text_lt(greatest(targets), s),
        _ => if asks_for_all(op) {
            forall|i: int| 0 <= i < targets.len() ==> text_relates(s, op, #[trigger] targets[i])
        } else {
            exists|i: int| 0 <= i < targets.len() && text_relates(s, op, #[trigger] targets[i])
        },
    }
}

/// Whether a value stands in the relation `op` to the targets.
pub open spec fn compare_value_spec(value: ValueView, op: ComparisonOperator, targets: Seq<Seq<char>>) -> bool {
    match value {
        ValueView::Number(n) => compare_number_spec(n, op, targets),
        ValueView::Text(s) => compare_text_spec(s, op, targets),
        ValueView::Date(d) => compare_text_spec(d, op, targets),
    }
}

/// The member that an assignment binds in the category `item_name`: the task
/// itself if that is the task's category, else the resource bound under that
/// name, if any.
pub open spec fn bound_member(a: AssignmentView, item_name: Seq<char>) -> Option<ItemId> {
    if item_name == a.task_item_name {
        Some(a.task_id)
    } else if a.resources.contains_key(item_name) {
        Some(a.resources[item_name])
    } else {
        None
    }
}

/// The first member with the given id in the category `item_name`, if the
/// category exists and has one.
pub open spec fn find_member(p: ProblemView, item_name: Seq<char>, id: ItemId) -> Option<MemberView> {
    if p.item_categories.contains_key(item_name) {
        let members = p.item_categories[item_name].members;
        let k = first_with_id(members, id);
        if k < members.len() {
            Some(members[k])
        } else {
            None
        }
    } else {
        None
    }
}

/// An id as the 32-bit signed number that field comparisons see: the id
/// itself up to the largest `i32`, and wrapped around beyond it.
pub open spec fn id_number(id: ItemId) -> i32 {
    if id.0 <= i32::MAX {
        id.0 as i32
    } else {
        (id.0 - 0x1_0000_0000) as i32
    }
}

/// The value of a member's field; the pseudo-field `id` is the member's id
/// as a number.
pub open spec fn field_value(m: MemberView, field_key: Seq<char>) -> Option<ValueView> {
    if field_key == "id"@ {
        Some(ValueView::Number(id_number(m.id)))
    } else if m.fields.contains_key(field_key) {
        Some(m.fields[field_key])
    } else {
        None
    }
}

/// Whether a condition holds of an assignment. It fails when the assignment
/// binds no member in the condition's category, when the category or the
/// member does not exist, or when the member lacks the field.
pub open spec fn condition_holds(c: ConditionView, a: AssignmentView, p: ProblemView) -> bool {
    match bound_member(a, c.item_name) {
        None => false,
        Some(id) => match find_member(p, c.item_name, id) {
            None => false,
            Some(m) => match field_value(m, c.field_key) {
                None => false,
                Some(v) => compare_value_spec(v, c.operator, c.target_values),
            },
        },
    }
}

/// Every condition holds of the assignment.
pub open spec fn all_hold(conditions: Seq<ConditionView>, a: AssignmentView, p: ProblemView) -> bool {
    forall|i: int| 0 <= i < conditions.len() ==> condition_holds(#[trigger] conditions[i], a, p)
}

/// Some condition holds of the assignment.
pub open spec fn any_holds(conditions: Seq<ConditionView>, a: AssignmentView, p: ProblemView) -> bool {
    exists|i: int| 0 <= i < conditions.len() && condition_holds(#[trigger] conditions[i], a, p)
}

/// Whether an assignment violates a per-assignment check: under `Forbid` when
/// the combined conditions hold, under `Require` when they do not.
pub open spec fn check_violated(
    conditions: Seq<ConditionView>,
    logical_op: LogicalOperator,
    mode: ConstraintMode,
    a: AssignmentView,
    p: ProblemView,
) -> bool {
    let combined = match logical_op {
        LogicalOperator::And => all_hold(conditions, a, p),
        LogicalOperator::Or => any_holds(conditions, a, p),
    };
    match mode {
        ConstraintMode::Forbid => combined,
        ConstraintMode::Require => !combined,
    }
}

/// The text of a value: a number in decimal, a text or a date as it is.
pub open spec fn value_text(v: ValueView) -> Seq<char> {
    match v {
        ValueView::Text(s) => s,
        ValueView::Number(n) => decimal(n as int),
        ValueView::Date(d) => d,
    }
}

/// The text by which the global rules group and tell apart assignments: the
/// field `field_key` of the member that the assignment binds in the category
/// `item_name`, resolved as for a condition. The pseudo-field `id` is the
/// member's id in decimal. Whatever is missing yields the empty text: the
/// binding, the category, the member or the field.
pub open spec fn extracted_text(
    a: AssignmentView,
    p: ProblemView,
    item_name: Seq<char>,
    field_key: Seq<char>,
) -> Seq<char> {
    match bound_member(a, item_name) {
        None => Seq::empty(),
        Some(id) => match find_member(p, item_name, id) {
            None => Seq::empty(),
            Some(m) => if field_key == "id"@ {
                decimal(m.id.0 as int)
            } else if m.fields.contains_key(field_key) {
                value_text(m.fields[field_key])
            } else {
                Seq::empty()
            },
        },
    }
}

/// The text that an item-field reference extracts from an assignment. A
/// reference without a colon names an item with the empty field key.
pub open spec fn referenced_text(a: AssignmentView, p: ProblemView, item_field: Seq<char>) -> Seq<char> {
    extracted_text(a, p, item_part(item_field), field_part(item_field))
}

/// The violations of a per-assignment check: the assignments that violate it.
pub open spec fn multi_assignment_violations(
    s: Seq<AssignmentView>,
    p: ProblemView,
    conditions: Seq<ConditionView>,
    logical_op: LogicalOperator,
    mode: ConstraintMode,
) -> nat {
    count_where(s.len(), |i: int| check_violated(conditions, logical_op, mode, s[i], p))
}

/// For each assignment, its group and the value that must be unique within
/// the group.
pub open spec fn group_and_unique(
    s: Seq<AssignmentView>,
    p: ProblemView,
    unique_item_field: Seq<char>,
    group_item_field: Seq<char>,
) -> Seq<Option<(Seq<char>, Seq<char>)>> {
    Seq::new(
        s.len(),
        |i: int|
            Some((referenced_text(s[i], p, group_item_field), referenced_text(s[i], p, unique_item_field))),
    )
}

/// The violations of an all-different rule: in each group, the assignments
/// whose unique value an earlier assignment of the group already has, which
/// is the size of the group less the number of distinct values in it.
pub open spec fn all_different_violations(
    s: Seq<AssignmentView>,
    p: ProblemView,
    unique_item_field: Seq<char>,
    group_item_field: Seq<char>,
) -> nat {
    surplus(group_and_unique(s, p, unique_item_field, group_item_field), 1)
}

/// Whether an assignment is within the scope of a cardinality rule.
pub open spec fn in_scope(
    a: AssignmentView,
    p: ProblemView,
    scope_conditions: Option<Seq<ConditionView>>,
) -> bool {
    match scope_conditions {
        Some(conditions) => all_hold(conditions, a, p),
        None => true,
    }
}

/// For each assignment, the value that a cardinality rule counts, or `None`
/// where the assignment is out of scope.
pub open spec fn counted_values(
    s: Seq<AssignmentView>,
    p: ProblemView,
    target_item_field: Seq<char>,
    scope_conditions: Option<Seq<ConditionView>>,
) -> Seq<Option<Seq<char>>> {
    Seq::new(
        s.len(),
        |i: int|
            if in_scope(s[i], p, scope_conditions) {
                Some(referenced_text(s[i], p, target_item_field))
            } else {
                None
            },
    )
}

/// The violations of a cardinality rule: for each value, the number of its
/// occurrences among the assignments in scope beyond `max_count`.
pub open spec fn cardinality_violations(
    s: Seq<AssignmentView>,
    p: ProblemView,
    target_item_field: Seq<char>,
    max_count: u32,
    scope_conditions: Option<Seq<ConditionView>>,
) -> nat {
    surplus(counted_values(s, p, target_item_field, scope_conditions), max_count as nat)
}

/// The date stored in a member's field, if the field exists and is a date.
pub open spec fn date_field(m: MemberView, field: Seq<char>) -> Option<Seq<char>> {
    if m.fields.contains_key(field) && m.fields[field] is Date {
        Some(m.fields[field]->Date_0)
    } else {
        None
    }
}

/// The start and the end of the time slot that an assignment is bound to.
/// `temporal_fields` names one field, which is both start and end, or two,
/// start then end. There is no span when it names none or more than two,
/// when the assignment has no `TimeSlot` resource, when the slot does not
/// exist, or when a named field is missing or not a date.
pub open spec fn time_span(a: AssignmentView, p: ProblemView, temporal_fields: Seq<Seq<char>>) -> Option<
    (Seq<char>, Seq<char>),
> {
    if (temporal_fields.len() == 1 || temporal_fields.len() == 2) && a.resources.contains_key(
        "TimeSlot"@,
    ) {
        match find_member(p, "TimeSlot"@, a.resources["TimeSlot"@]) {
            None => None,
            Some(m) => {
                let start = date_field(m, temporal_fields[0]);
                let end = date_field(m, temporal_fields[temporal_fields.len() - 1]);
                if start is Some && end is Some {
                    Some((start->0, end->0))
                } else {
                    None
                }
            },
        }
    } else {
        None
    }
}

/// Whether two spans, each a start and an end, stand in the relation.
/// The orderings compare the two starts; `In` and `NotIn` relate no spans.
pub open spec fn spans_relate(
    relation: ComparisonOperator,
    first: (Seq<char>, Seq<char>),
    second: (Seq<char>, Seq<char>),
) -> bool {
    match relation {
        ComparisonOperator::Before => text_lt(first.1, second.0),
        ComparisonOperator::After => text_lt(second.1, first.0),
        ComparisonOperator::Overlap => text_lt(first.0, second.1) && text_lt(second.0, first.1),
        ComparisonOperator::NoOverlap => !(text_lt(first.0, second.1) && text_lt(second.0, first.1)),
        ComparisonOperator::Equal => first.0 == second.0,
        ComparisonOperator::NotEqual => first.0 != second.0,
        ComparisonOperator::GreaterThan => text_lt(second.0, first.0),
        ComparisonOperator::GreaterThanOrEqual => text_le(second.0, first.0),
        ComparisonOperator::LessThan => text_lt(first.0, second.0),
        ComparisonOperator::LessThanOrEqual => text_le(first.0, second.0),
        _ => false,
    }
}

/// Whether the time slots of two assignments stand in the relation. Where
/// either has no span the relation does not hold.
pub open spec fn temporal_relation_holds(
    first: AssignmentView,
    second: AssignmentView,
    p: ProblemView,
    relation: ComparisonOperator,
    temporal_fields: Seq<Seq<char>>,
) -> bool {
    match (time_span(first, p, temporal_fields), time_span(second, p, temporal_fields)) {
        (Some(f), Some(s)) => spans_relate(relation, f, s),
        _ => false,
    }
}

/// Whether the ordered pair `(first, second)` violates a temporal rule: both
/// are in the same group, `first` meets the first conditions, `second` the
/// second, and their time slots do not stand in the relation.
pub open spec fn pair_violates(
    first: AssignmentView,
    second: AssignmentView,
    p: ProblemView,
    grouping_item_field: Seq<char>,
    first_conditions: Seq<ConditionView>,
    second_conditions: Seq<ConditionView>,
    temporal_relation: ComparisonOperator,
    temporal_fields: Seq<Seq<char>>,
) -> bool {
    &&& referenced_text(first, p, grouping_item_field) == referenced_text(second, p, grouping_item_field)
    &&& all_hold(first_conditions, first, p)
    &&& all_hold(second_conditions, second, p)
    &&& !temporal_relation_holds(first, second, p, temporal_relation, temporal_fields)
}

/// The violations of a temporal rule: the ordered pairs of positions of the
/// schedule, a position paired with itself included, that violate it.
pub open spec fn temporal_violations(
    s: Seq<AssignmentView>,
    p: ProblemView,
    grouping_item_field: Seq<char>,
    first_conditions: Seq<ConditionView>,
    second_conditions: Seq<ConditionView>,
    temporal_relation: ComparisonOperator,
    temporal_fields: Seq<Seq<char>>,
) -> nat {
    count_pairs(
        s.len(),
        s.len(),
        |i: int, j: int|
            pair_violates(
                s[i],
                s[j],
                p,
                grouping_item_field,
                first_conditions,
                second_conditions,
                temporal_relation,
                temporal_fields,
            ),
    )
}

/// The number of violations of a rule in a schedule.
pub open spec fn rule_violations(rule: ConstraintRuleView, s: Seq<AssignmentView>, p: ProblemView) -> nat {
    match rule {
        ConstraintRuleView::MultiAssignmentCheck { conditions, logical_op, mode } => {
            multi_assignment_violations(s, p, conditions, logical_op, mode)
        },
        ConstraintRuleView::GlobalAllDifferent { unique_item_field, group_item_field } => {
            all_different_violations(s, p, unique_item_field, group_item_field)
        },
        ConstraintRuleView::GlobalCardinality { target_item_field, max_count, scope_conditions } => {
            cardinality_violations(s, p, target_item_field, max_count, scope_conditions)
        },
        ConstraintRuleView::GlobalTemporalPrecedence {
            grouping_item_field,
            first_conditions,
            second_conditions,
            temporal_relation,
            temporal_fields,
        } => temporal_violations(
            s,
            p,
            grouping_item_field,
            first_conditions,
            second_conditions,
            temporal_relation,
            temporal_fields,
        ),
    }
}

/// The sum over the constraints of violations times weight.
pub open spec fn total_cost(s: Seq<AssignmentView>, p: ProblemView, constraints: Seq<ConstraintView>) -> nat
    decreases constraints.len(),
{
    if constraints.len() == 0 {
        0
    } else {
        total_cost(s, p, constraints.drop_last()) + rule_violations(constraints.last().rule, s, p)
            * (constraints.last().weight as nat)
    }
}

/// The cost of a schedule as the evaluator reports it: the weighted total,
/// held at the largest `u32` where it would exceed it.
pub open spec fn schedule_cost(s: Seq<AssignmentView>, p: ProblemView, constraints: Seq<ConstraintView>) -> u32 {
    saturate(total_cost(s, p, constraints))
}

} // verus!
