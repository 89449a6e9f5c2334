//! Laws of the constraint language, proved of its semantics.

use super::counting::{
    count_where, in_excess, lemma_count_pairs_agree, lemma_count_pairs_transpose,
    lemma_count_where_zero, lemma_excess_of_value, lemma_occurrences_positive,
    lemma_surplus_by_position, lemma_surplus_distinct, lemma_surplus_remove, occurrences, surplus,
};
use super::semantics::{
    all_different_violations, cardinality_violations, counted_values, group_and_unique,
    pair_violates, referenced_text, schedule_cost, temporal_violations, total_cost,
};
use super::semantics::{greatest, least};
use crate::domain::{AssignmentView, ComparisonOperator, ConditionView, ConstraintView, ProblemView};
use crate::text::{lemma_text_lt_irreflexive, lemma_text_lt_transitive, text_le, text_lt};
use vstd::prelude::*;

verus! {

/// Without constraints every schedule costs nothing.
pub proof fn lemma_no_constraints_no_cost(s: Seq<AssignmentView>, p: ProblemView)
    ensures
        total_cost(s, p, Seq::empty()) == 0,
        schedule_cost(s, p, Seq::empty()) == 0,
{
}

/// Each further constraint adds its violations times its weight to the
/// total, so the total is the sum of these products over the constraints.
pub proof fn lemma_total_cost_push(
    s: Seq<AssignmentView>,
    p: ProblemView,
    constraints: Seq<ConstraintView>,
    next: ConstraintView,
)
    ensures
        total_cost(s, p, constraints.push(next)) == total_cost(s, p, constraints)
            + super::semantics::rule_violations(next.rule, s, p) * (next.weight as nat),
{
    assert(constraints.push(next).drop_last() =~= constraints);
}

/// An all-different rule has no violation exactly when, within every group,
/// the values that must be unique are pairwise distinct.
pub proof fn lemma_all_different_zero(
    s: Seq<AssignmentView>,
    p: ProblemView,
    unique_item_field: Seq<char>,
    group_item_field: Seq<char>,
)
    ensures
        all_different_violations(s, p, unique_item_field, group_item_field) == 0 <==> forall|
            i: int,
            j: int,
        |
            0 <= i < j < s.len() && referenced_text(s[i], p, group_item_field) == referenced_text(
                s[j],
                p,
                group_item_field,
            ) ==> referenced_text(s[i], p, unique_item_field) != referenced_text(
                s[j],
                p,
                unique_item_field,
            ),
{
    let pairs = group_and_unique(s, p, unique_item_field, group_item_field);
    let distinct = forall|i: int, j: int|
        0 <= i < j < s.len() && referenced_text(s[i], p, group_item_field) == referenced_text(
            s[j],
            p,
            group_item_field,
        ) ==> referenced_text(s[i], p, unique_item_field) != referenced_text(s[j], p, unique_item_field);
    let excess = |i: int| in_excess(pairs, i, 1);
    lemma_surplus_by_position(pairs, 1);
    lemma_count_where_zero(pairs.len(), excess);
    if surplus(pairs, 1) == 0 {
        assert forall|i: int, j: int|
            0 <= i < j < s.len() && referenced_text(s[i], p, group_item_field) == referenced_text(
                s[j],
                p,
                group_item_field,
            ) implies referenced_text(s[i], p, unique_item_field) != referenced_text(
            s[j],
            p,
            unique_item_field,
        ) by {
            if referenced_text(s[i], p, unique_item_field) == referenced_text(s[j], p, unique_item_field) {
                assert(pairs.take(j)[i] == pairs[j]);
                lemma_occurrences_positive(pairs.take(j), pairs[j]);
                assert(excess(j));
            }
        }
    }
    if distinct {
        assert forall|j: int| 0 <= j < pairs.len() implies !#[trigger] excess(j) by {
            lemma_occurrences_positive(pairs.take(j), pairs[j]);
        }
    }
}

/// The violations of an all-different rule are the assignments less the
/// distinct pairs of group and unique value among them: summed over the
/// groups, the size of each group less the number of distinct values in it.
pub proof fn lemma_all_different_counts_repeats(
    s: Seq<AssignmentView>,
    p: ProblemView,
    unique_item_field: Seq<char>,
    group_item_field: Seq<char>,
)
    ensures
        group_and_unique(s, p, unique_item_field, group_item_field).to_set().finite(),
        all_different_violations(s, p, unique_item_field, group_item_field) == s.len()
            - group_and_unique(s, p, unique_item_field, group_item_field).to_set().len(),
{
    lemma_surplus_distinct(group_and_unique(s, p, unique_item_field, group_item_field));
}

/// The violations of a cardinality rule are the positions of the values in
/// excess, and each value contributes the number of its occurrences among
/// the assignments in scope beyond `max_count`, or nothing.
pub proof fn lemma_cardinality_per_value(
    s: Seq<AssignmentView>,
    p: ProblemView,
    target_item_field: Seq<char>,
    max_count: u32,
    scope_conditions: Option<Seq<ConditionView>>,
    value: Seq<char>,
)
    ensures
        ({
            let counted = counted_values(s, p, target_item_field, scope_conditions);
            let limit = max_count as nat;
            let occurs = occurrences(counted, Some(value));
            &&& cardinality_violations(s, p, target_item_field, max_count, scope_conditions)
                == count_where(s.len(), |i: int| in_excess(counted, i, limit))
            &&& count_where(s.len(), |i: int| counted[i] == Some(value) && in_excess(counted, i, limit))
                == (if occurs > limit {
                occurs - limit
            } else {
                0
            })
        }),
{
    let counted = counted_values(s, p, target_item_field, scope_conditions);
    lemma_surplus_by_position(counted, max_count as nat);
    lemma_excess_of_value(counted, max_count as nat, value);
}

/// Taking an assignment out of a schedule does not raise the violations of
/// a cardinality rule.
pub proof fn lemma_cardinality_monotone(
    s: Seq<AssignmentView>,
    p: ProblemView,
    target_item_field: Seq<char>,
    max_count: u32,
    scope_conditions: Option<Seq<ConditionView>>,
    k: int,
)
    requires
        0 <= k < s.len(),
    ensures
        cardinality_violations(s.remove(k), p, target_item_field, max_count, scope_conditions)
            <= cardinality_violations(s, p, target_item_field, max_count, scope_conditions),
{
    let counted = counted_values(s, p, target_item_field, scope_conditions);
    assert(counted_values(s.remove(k), p, target_item_field, scope_conditions) =~= counted.remove(k));
    lemma_surplus_remove(counted, k, max_count as nat);
}

/// Under `Overlap` a temporal rule counts the same violations when its first
/// and second conditions change places.
pub proof fn lemma_overlap_symmetric(
    s: Seq<AssignmentView>,
    p: ProblemView,
    grouping_item_field: Seq<char>,
    first_conditions: Seq<ConditionView>,
    second_conditions: Seq<ConditionView>,
    temporal_fields: Seq<Seq<char>>,
)
    ensures
        temporal_violations(
            s,
            p,
            grouping_item_field,
            first_conditions,
            second_conditions,
            ComparisonOperator::Overlap,
            temporal_fields,
        ) == temporal_violations(
            s,
            p,
            grouping_item_field,
            second_conditions,
            first_conditions,
            ComparisonOperator::Overlap,
            temporal_fields,
        ),
{
    let n = s.len();
    let forward = |i: int, j: int|
        pair_violates(
            s[i],
            s[j],
            p,
            grouping_item_field,
            first_conditions,
            second_conditions,
            ComparisonOperator::Overlap,
            temporal_fields,
        );
    let backward = |i: int, j: int|
        pair_violates(
            s[i],
            s[j],
            p,
            grouping_item_field,
            second_conditions,
            first_conditions,
            ComparisonOperator::Overlap,
            temporal_fields,
        );
    lemma_count_pairs_transpose(n, n, forward);
    lemma_count_pairs_agree(n, n, |j: int, i: int| forward(i, j), backward);
}

/// The least of some targets is one of them, and none of them comes before
/// it.
pub proof fn lemma_least_is_minimum(targets: Seq<Seq<char>>)
    requires
        targets.len() > 0,
    ensures
        exists|i: int| 0 <= i < targets.len() && #[trigger] targets[i] == least(targets),
        forall|i: int| 0 <= i < targets.len() ==> text_le(least(targets), #[trigger] targets[i]),
    decreases targets.len(),
{
    let last = targets.last();
    lemma_text_lt_irreflexive(last);
    if targets.len() == 1 {
        assert(targets[0] == least(targets));
    } else {
        let rest = targets.drop_last();
        lemma_least_is_minimum(rest);
        let before = least(rest);
        let k = choose|i: int| 0 <= i < rest.len() && #[trigger] rest[i] == before;
        assert(targets[k] == before);
        assert(targets[targets.len() - 1] == last);
        assert forall|i: int| 0 <= i < targets.len() implies text_le(
            least(targets),
            #[trigger] targets[i],
        ) by {
            if i < rest.len() {
                assert(rest[i] == targets[i]);
                if text_lt(last, before) && text_lt(targets[i], last) {
                    lemma_text_lt_transitive(targets[i], last, before);
                }
            }
        }
    }
}

/// The greatest of some targets is one of them, and none of them comes
/// after it.
pub proof fn lemma_greatest_is_maximum(targets: Seq<Seq<char>>)
    requires
        targets.len() > 0,
    ensures
        exists|i: int| 0 <= i < targets.len() && #[trigger] targets[i] == greatest(targets),
        forall|i: int| 0 <= i < targets.len() ==> text_le(#[trigger] targets[i], greatest(targets)),
    decreases targets.len(),
{
    let last = targets.last();
    lemma_text_lt_irreflexive(last);
    if targets.len() == 1 {
        assert(targets[0] == greatest(targets));
    } else {
        let rest = targets.drop_last();
        lemma_greatest_is_maximum(rest);
        let before = greatest(rest);
        let k = choose|i: int| 0 <= i < rest.len() && #[trigger] rest[i] == before;
        assert(targets[k] == before);
        assert(targets[targets.len() - 1] == last);
        assert forall|i: int| 0 <= i < targets.len() implies text_le(
            #[trigger] targets[i],
            greatest(targets),
        ) by {
            if i < rest.len() {
                assert(rest[i] == targets[i]);
                if text_lt(before, last) && text_lt(last, targets[i]) {
                    lemma_text_lt_transitive(before, last, targets[i]);
                }
            }
        }
    }
}

} // verus!
