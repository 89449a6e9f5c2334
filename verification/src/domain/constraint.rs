//! The constraint language: conditions on single assignments and rules over
//! whole schedules.

use vstd::prelude::*;

verus! {

/// Whether a per-assignment predicate must not hold or must hold.
#[derive(Clone, Copy, Debug, PartialEq, Eq, Structural)]
pub enum ConstraintMode {
    Forbid,
    Require,
}

/// How the conditions of a per-assignment check are combined.
#[derive(Clone, Copy, Debug, PartialEq, Eq, Structural)]
pub enum LogicalOperator {
    And,
    Or,
}

/// The comparison that a condition or a temporal rule applies.
#[derive(Clone, Copy, Debug, PartialEq, Eq, Structural)]
pub enum ComparisonOperator {
    In,
    NotIn,
    Equal,
    NotEqual,
    GreaterThan,
    LessThan,
    GreaterThanOrEqual,
    LessThanOrEqual,
    Before,
    After,
    Overlap,
    NoOverlap,
}

/// A predicate on one assignment: a field of the member that the assignment
/// binds in one category, compared against a list of targets.
#[derive(Debug)]
pub struct Condition {
    pub item_name: String,
    pub field_key: String,
    pub operator: ComparisonOperator,
    pub target_values: Vec<String>,
}

/// The mathematical content of a [`Condition`].
pub struct ConditionView {
    pub item_name: Seq<char>,
    pub field_key: Seq<char>,
    pub operator: ComparisonOperator,
    pub target_values: Seq<Seq<char>>,
}

/// The character sequences of a sequence of strings.
pub open spec fn texts(strings: Seq<String>) -> Seq<Seq<char>> {
    strings.map_values(|s: String| s@)
}

/// The contents of a sequence of conditions.
pub open spec fn condition_views(conditions: Seq<Condition>) -> Seq<ConditionView> {
    conditions.map_values(|c: Condition| c@)
}

impl View for Condition {
    type V = ConditionView;

    open spec fn view(&self) -> ConditionView {
        ConditionView {
            item_name: self.item_name@,
            field_key: self.field_key@,
            operator: self.operator,
            target_values: texts(self.target_values@),
        }
    }
}

/// A copy of a list of strings.
pub fn clone_texts(strings: &Vec<String>) -> (r: Vec<String>)
    ensures
        texts(r@) == texts(strings@),
{
    let mut r: Vec<String> = Vec::new();
    let mut i: usize = 0;
    while i < strings.len()
        invariant
            i <= strings@.len(),
            r@.len() == i,
            forall|j: int| 0 <= j < i ==> (#[trigger] r@[j])@ == strings@[j]@,
        decreases strings@.len() - i,
    {
        r.push(strings[i].clone());
        i += 1;
    }
    r
}

impl Clone for Condition {
    fn clone(&self) -> (res: Self)
        ensures
            res@ == self@,
    {
        Condition {
            item_name: self.item_name.clone(),
            field_key: self.field_key.clone(),
            operator: self.operator,
            target_values: clone_texts(&self.target_values),
        }
    }
}

/// A copy of a list of conditions.
pub fn clone_conditions(conditions: &Vec<Condition>) -> (r: Vec<Condition>)
    ensures
        condition_views(r@) == condition_views(conditions@),
{
    let mut r: Vec<Condition> = Vec::new();
    let mut i: usize = 0;
    while i < conditions.len()
        invariant
            i <= conditions@.len(),
            r@.len() == i,
            forall|j: int| 0 <= j < i ==> (#[trigger] r@[j])@ == conditions@[j]@,
        decreases conditions@.len() - i,
    {
        r.push(conditions[i].clone());
        i += 1;
    }
    r
}

/// A rule of the constraint language. Fields whose name ends in `item_field`
/// are item-field references, written `<ItemName>:<field_key>`.
#[derive(Debug)]
pub enum ConstraintRule {
    MultiAssignmentCheck { conditions: Vec<Condition>, logical_op: LogicalOperator, mode: ConstraintMode },
    GlobalAllDifferent { unique_item_field: String, group_item_field: String },
    GlobalCardinality {
        target_item_field: String,
        max_count: u32,
        scope_conditions: Option<Vec<Condition>>,
    },
    GlobalTemporalPrecedence {
        grouping_item_field: String,
        first_conditions: Vec<Condition>,
        second_conditions: Vec<Condition>,
        temporal_relation: ComparisonOperator,
        temporal_fields: Vec<String>,
    },
}

/// The mathematical content of a [`ConstraintRule`].
pub enum ConstraintRuleView {
    MultiAssignmentCheck {
        conditions: Seq<ConditionView>,
        logical_op: LogicalOperator,
        mode: ConstraintMode,
    },
    GlobalAllDifferent { unique_item_field: Seq<char>, group_item_field: Seq<char> },
    GlobalCardinality {
        target_item_field: Seq<char>,
        max_count: u32,
        scope_conditions: Option<Seq<ConditionView>>,
    },
    GlobalTemporalPrecedence {
        grouping_item_field: Seq<char>,
        first_conditions: Seq<ConditionView>,
        second_conditions: Seq<ConditionView>,
        temporal_relation: ComparisonOperator,
        temporal_fields: Seq<Seq<char>>,
    },
}

impl View for ConstraintRule {
    type V = ConstraintRuleView;

    open spec fn view(&self) -> ConstraintRuleView {
        match self {
            ConstraintRule::MultiAssignmentCheck { conditions, logical_op, mode } => {
                ConstraintRuleView::MultiAssignmentCheck {
                    conditions: condition_views(conditions@),
                    logical_op: *logical_op,
                    mode: *mode,
                }
            },
            ConstraintRule::GlobalAllDifferent { unique_item_field, group_item_field } => {
                ConstraintRuleView::GlobalAllDifferent {
                    unique_item_field: unique_item_field@,
                    group_item_field: group_item_field@,
                }
            },
            ConstraintRule::GlobalCardinality { target_item_field, max_count, scope_conditions } => {
                ConstraintRuleView::GlobalCardinality {
                    target_item_field: target_item_field@,
                    max_count: *max_count,
                    scope_conditions: match scope_conditions {
                        Some(conditions) => Some(condition_views(conditions@)),
                        None => None,
                    },
                }
            },
            ConstraintRule::GlobalTemporalPrecedence {
                grouping_item_field,
                first_conditions,
                second_conditions,
                temporal_relation,
                temporal_fields,
            } => ConstraintRuleView::GlobalTemporalPrecedence {
                grouping_item_field: grouping_item_field@,
                first_conditions: condition_views(first_conditions@),
                second_conditions: condition_views(second_conditions@),
                temporal_relation: *temporal_relation,
                temporal_fields: texts(temporal_fields@),
            },
        }
    }
}

impl Clone for ConstraintRule {
    fn clone(&self) -> (res: Self)
        ensures
            res@ == self@,
    {
        match self {
            ConstraintRule::MultiAssignmentCheck { conditions, logical_op, mode } => {
                ConstraintRule::MultiAssignmentCheck {
                    conditions: clone_conditions(conditions),
                    logical_op: *logical_op,
                    mode: *mode,
                }
            },
            ConstraintRule::GlobalAllDifferent { unique_item_field, group_item_field } => {
                ConstraintRule::GlobalAllDifferent {
                    unique_item_field: unique_item_field.clone(),
                    group_item_field: group_item_field.clone(),
                }
            },
            ConstraintRule::GlobalCardinality { target_item_field, max_count, scope_conditions } => {
                ConstraintRule::GlobalCardinality {
                    target_item_field: target_item_field.clone(),
                    max_count: *max_count,
                    scope_conditions: match scope_conditions {
                        Some(conditions) => Some(clone_conditions(conditions)),
                        None => None,
                    },
                }
            },
            ConstraintRule::GlobalTemporalPrecedence {
                grouping_item_field,
                first_conditions,
                second_conditions,
                temporal_relation,
                temporal_fields,
            } => ConstraintRule::GlobalTemporalPrecedence {
                grouping_item_field: grouping_item_field.clone(),
                first_conditions: clone_conditions(first_conditions),
                second_conditions: clone_conditions(second_conditions),
                temporal_relation: *temporal_relation,
                temporal_fields: clone_texts(temporal_fields),
            },
        }
    }
}

/// The first position at or after `from` at which `s` holds a colon; the
/// length of `s` if there is none.
pub open spec fn find_colon(s: Seq<char>, from: int) -> int
    decreases s.len() - from,
{
    if from < 0 || from >= s.len() {
        s.len() as int
    } else if s[from] == ':' {
        from
    } else {
        find_colon(s, from + 1)
    }
}

/// The item name of an item-field reference: what stands before its first
/// colon, and the whole text where it holds none.
pub open spec fn item_part(s: Seq<char>) -> Seq<char> {
    s.subrange(0, find_colon(s, 0))
}

/// The field key of an item-field reference: what stands between its first
/// colon and the next one, or the end; the empty text where it holds no
/// colon.
pub open spec fn field_part(s: Seq<char>) -> Seq<char> {
    let start = find_colon(s, 0) + 1;
    if start <= s.len() {
        s.subrange(start, find_colon(s, start))
    } else {
        Seq::empty()
    }
}

/// A named, weighted rule.
#[derive(Debug)]
pub struct Constraint {
    pub name: String,
    pub weight: u32,
    pub rule: ConstraintRule,
}

/// The mathematical content of a [`Constraint`].
pub struct ConstraintView {
    pub name: Seq<char>,
    pub weight: u32,
    pub rule: ConstraintRuleView,
}

impl View for Constraint {
    type V = ConstraintView;

    open spec fn view(&self) -> ConstraintView {
        ConstraintView { name: self.name@, weight: self.weight, rule: self.rule@ }
    }
}

impl Clone for Constraint {
    fn clone(&self) -> (res: Self)
        ensures
            res@ == self@,
    {
        Constraint { name: self.name.clone(), weight: self.weight, rule: self.rule.clone() }
    }
}

/// The contents of a sequence of constraints.
pub open spec fn constraint_views(constraints: Seq<Constraint>) -> Seq<ConstraintView> {
    constraints.map_values(|c: Constraint| c@)
}

} // verus!
