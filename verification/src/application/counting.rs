//! Counting over finite index ranges and sequences.

use vstd::prelude::*;

verus! {

/// How many `i` in `0..n` satisfy `f`.
pub open spec fn count_where(n: nat, f: spec_fn(int) -> bool) -> nat
    decreases n,
{
    if n == 0 {
        0
    } else {
        count_where((n - 1) as nat, f) + if f(n - 1) {
            1nat
        } else {
            0nat
        }
    }
}

/// The sum of `g(i)` over `i` in `0..n`.
pub open spec fn sum_to(n: nat, g: spec_fn(int) -> nat) -> nat
    decreases n,
{
    if n == 0 {
        0
    } else {
        sum_to((n - 1) as nat, g) + g(n - 1)
    }
}

/// How many pairs `(i, j)` with `i` in `0..n` and `j` in `0..m` satisfy `f`.
pub open spec fn count_pairs(n: nat, m: nat, f: spec_fn(int, int) -> bool) -> nat {
    sum_to(n, |i: int| count_where(m, |j: int| f(i, j)))
}

/// How many elements of `s` equal `x`.
pub open spec fn occurrences<T>(s: Seq<T>, x: T) -> nat
    decreases s.len(),
{
    if s.len() == 0 {
        0
    } else {
        occurrences(s.drop_last(), x) + if s.last() == x {
            1nat
        } else {
            0nat
        }
    }
}

/// How many elements of `s` are in excess of `limit`. An element that is
/// `None` is never counted. One that is `Some` is in excess when at least
/// `limit` equal elements stand before it: of a value that occurs `c` times,
/// the occurrences after the first `limit` are counted, `c - limit` of them
/// where `c` exceeds `limit` and none otherwise.
pub open spec fn surplus<T>(s: Seq<Option<T>>, limit: nat) -> nat
    decreases s.len(),
{
    if s.len() == 0 {
        0
    } else {
        surplus(s.drop_last(), limit) + if in_excess(s, s.len() - 1, limit) {
            1nat
        } else {
            0nat
        }
    }
}

/// Whether the element at position `i` of `s` is `Some` and has at least
/// `limit` equal elements before it.
pub open spec fn in_excess<T>(s: Seq<Option<T>>, i: int, limit: nat) -> bool {
    s[i] is Some && occurrences(s.take(i), s[i]) >= limit
}

/// The bound of a count held in 32 bits: `n` itself if it fits, otherwise
/// the largest `u32`.
pub open spec fn saturate(n: nat) -> u32 {
    if n > u32::MAX {
        u32::MAX
    } else {
        n as u32
    }
}

/// A counter that stops at the largest `u32`.
pub(crate) fn increment(count: u32) -> (r: u32)
    ensures
        r == saturate((count + 1) as nat),
{
    if count < u32::MAX {
        count + 1
    } else {
        count
    }
}

/// `f` is counted the same over two ranges when the predicates agree on them.
pub proof fn lemma_count_where_agree(n: nat, f: spec_fn(int) -> bool, g: spec_fn(int) -> bool)
    requires
        forall|i: int| 0 <= i < n ==> #[trigger] f(i) == g(i),
    ensures
        count_where(n, f) == count_where(n, g),
    decreases n,
{
    if n > 0 {
        lemma_count_where_agree((n - 1) as nat, f, g);
    }
}

/// Nothing is counted exactly when no index satisfies the predicate.
pub proof fn lemma_count_where_zero(n: nat, f: spec_fn(int) -> bool)
    ensures
        count_where(n, f) == 0 <==> forall|i: int| 0 <= i < n ==> !#[trigger] f(i),
    decreases n,
{
    if n > 0 {
        lemma_count_where_zero((n - 1) as nat, f);
    }
}

/// Sums over `0..n` agree when the summands agree.
pub proof fn lemma_sum_to_agree(n: nat, f: spec_fn(int) -> nat, g: spec_fn(int) -> nat)
    requires
        forall|i: int| 0 <= i < n ==> #[trigger] f(i) == g(i),
    ensures
        sum_to(n, f) == sum_to(n, g),
    decreases n,
{
    if n > 0 {
        lemma_sum_to_agree((n - 1) as nat, f, g);
    }
}

/// A sum of sums is the sum of the two sums.
pub proof fn lemma_sum_to_add(n: nat, f: spec_fn(int) -> nat, g: spec_fn(int) -> nat)
    ensures
        sum_to(n, |i: int| f(i) + g(i)) == sum_to(n, f) + sum_to(n, g),
    decreases n,
{
    if n > 0 {
        lemma_sum_to_add((n - 1) as nat, f, g);
    }
}

/// Counting is summing ones.
pub proof fn lemma_count_where_as_sum(n: nat, f: spec_fn(int) -> bool)
    ensures
        count_where(n, f) == sum_to(
            n,
            |i: int|
                if f(i) {
                    1nat
                } else {
                    0nat
                },
        ),
    decreases n,
{
    if n > 0 {
        lemma_count_where_as_sum((n - 1) as nat, f);
    }
}

/// Pairs can be counted by rows or by columns: the pairs `(i, j)` that
/// satisfy `f` are as many as the pairs `(j, i)` that satisfy `f` with its
/// arguments exchanged.
pub proof fn lemma_count_pairs_transpose(n: nat, m: nat, f: spec_fn(int, int) -> bool)
    ensures
        count_pairs(n, m, f) == count_pairs(m, n, |j: int, i: int| f(i, j)),
    decreases n,
{
    let g = |j: int, i: int| f(i, j);
    let rows = |i: int| count_where(m, |j: int| f(i, j));
    let columns = |j: int| count_where(n, |i: int| g(j, i));
    if n == 0 {
        assert(sum_to(m, columns) == 0) by {
            lemma_sum_to_zero(m, columns);
        }
    } else {
        let k = (n - 1) as nat;
        lemma_count_pairs_transpose(k, m, f);
        let shorter = |j: int| count_where(k, |i: int| g(j, i));
        let last_row = |j: int| f(k as int, j);
        let ones = |j: int|
            if last_row(j) {
                1nat
            } else {
                0nat
            };
        assert(sum_to(m, columns) == sum_to(m, |j: int| shorter(j) + ones(j))) by {
            lemma_sum_to_agree(m, columns, |j: int| shorter(j) + ones(j));
        }
        lemma_sum_to_add(m, shorter, ones);
        lemma_count_where_as_sum(m, last_row);
        assert(rows(k as int) == count_where(m, last_row)) by {
            lemma_count_where_agree(m, |j: int| f(k as int, j), last_row);
        }
    }
}

/// A sum of zeros is zero.
pub proof fn lemma_sum_to_zero(n: nat, g: spec_fn(int) -> nat)
    requires
        forall|i: int| 0 <= i < n ==> #[trigger] g(i) == 0,
    ensures
        sum_to(n, g) == 0,
    decreases n,
{
    if n > 0 {
        lemma_sum_to_zero((n - 1) as nat, g);
    }
}

/// Pairs are counted the same when the predicates agree on them.
pub proof fn lemma_count_pairs_agree(
    n: nat,
    m: nat,
    f: spec_fn(int, int) -> bool,
    g: spec_fn(int, int) -> bool,
)
    requires
        forall|i: int, j: int| 0 <= i < n && 0 <= j < m ==> #[trigger] f(i, j) == g(i, j),
    ensures
        count_pairs(n, m, f) == count_pairs(n, m, g),
{
    let rows_f = |i: int| count_where(m, |j: int| f(i, j));
    let rows_g = |i: int| count_where(m, |j: int| g(i, j));
    assert forall|i: int| 0 <= i < n implies #[trigger] rows_f(i) == rows_g(i) by {
        lemma_count_where_agree(m, |j: int| f(i, j), |j: int| g(i, j));
    }
    lemma_sum_to_agree(n, rows_f, rows_g);
}

/// A value occurs in a sequence exactly when it is counted at least once.
pub proof fn lemma_occurrences_positive<T>(s: Seq<T>, x: T)
    ensures
        occurrences(s, x) >= 1 <==> exists|j: int| 0 <= j < s.len() && s[j] == x,
    decreases s.len(),
{
    if s.len() > 0 {
        let rest = s.drop_last();
        lemma_occurrences_positive(rest, x);
        if exists|j: int| 0 <= j < s.len() && s[j] == x {
            let j = choose|j: int| 0 <= j < s.len() && s[j] == x;
            if j < s.len() - 1 {
                assert(rest[j] == x);
            }
        }
    }
}

/// Taking an element out of a sequence does not raise the count of any
/// value.
pub proof fn lemma_occurrences_remove<T>(s: Seq<T>, k: int, x: T)
    requires
        0 <= k < s.len(),
    ensures
        occurrences(s.remove(k), x) <= occurrences(s, x),
    decreases s.len(),
{
    if k != s.len() - 1 {
        let shorter = s.remove(k);
        assert(shorter.drop_last() =~= s.drop_last().remove(k));
        lemma_occurrences_remove(s.drop_last(), k, x);
    }
}

/// The elements in excess, counted position by position.
pub proof fn lemma_surplus_by_position<T>(s: Seq<Option<T>>, limit: nat)
    ensures
        surplus(s, limit) == count_where(s.len(), |i: int| in_excess(s, i, limit)),
    decreases s.len(),
{
    if s.len() > 0 {
        let rest = s.drop_last();
        lemma_surplus_by_position(rest, limit);
        assert forall|i: int| 0 <= i < rest.len() implies in_excess(rest, i, limit) == in_excess(
            s,
            i,
            limit,
        ) by {
            assert(rest.take(i) =~= s.take(i));
        }
        lemma_count_where_agree(
            rest.len(),
            |i: int| in_excess(rest, i, limit),
            |i: int| in_excess(s, i, limit),
        );
    }
}

/// Of a value that occurs `c` times, the occurrences in excess are
/// `c - limit` where `c` exceeds `limit`, and none otherwise.
pub proof fn lemma_excess_of_value<T>(s: Seq<Option<T>>, limit: nat, v: T)
    ensures
        count_where(s.len(), |i: int| s[i] == Some(v) && in_excess(s, i, limit)) == (if occurrences(
            s,
            Some(v),
        ) > limit {
            occurrences(s, Some(v)) - limit
        } else {
            0
        }),
    decreases s.len(),
{
    if s.len() > 0 {
        let rest = s.drop_last();
        lemma_excess_of_value(rest, limit, v);
        assert forall|i: int| 0 <= i < rest.len() implies (rest[i] == Some(v) && in_excess(rest, i, limit)) == (
        s[i] == Some(v) && in_excess(s, i, limit)) by {
            assert(rest.take(i) =~= s.take(i));
        }
        lemma_count_where_agree(
            rest.len(),
            |i: int| rest[i] == Some(v) && in_excess(rest, i, limit),
            |i: int| s[i] == Some(v) && in_excess(s, i, limit),
        );
    }
}

/// Where every element counts, the elements that repeat an earlier one and
/// the distinct elements make up the whole sequence.
pub proof fn lemma_surplus_distinct<T>(s: Seq<Option<T>>)
    requires
        forall|i: int| 0 <= i < s.len() ==> (#[trigger] s[i]) is Some,
    ensures
        s.to_set().finite(),
        surplus(s, 1) + s.to_set().len() == s.len(),
    decreases s.len(),
{
    vstd::seq_lib::seq_to_set_is_finite(s);
    if s.len() == 0 {
        assert(s.to_set() =~= Set::<Option<T>>::empty());
    } else {
        let rest = s.drop_last();
        lemma_surplus_distinct(rest);
        lemma_occurrences_positive(rest, s.last());
        assert(s.to_set() =~= rest.to_set().insert(s.last())) by {
            assert forall|x: Option<T>| s.to_set().contains(x) implies rest.to_set().insert(
                s.last(),
            ).contains(x) by {
                let i = choose|i: int| 0 <= i < s.len() && s[i] == x;
                if i < rest.len() {
                    assert(rest[i] == x);
                }
            }
            assert forall|x: Option<T>| rest.to_set().insert(s.last()).contains(x) implies s.to_set().contains(
                x,
            ) by {
            }
        }
        if occurrences(rest, s.last()) == 0 {
            assert(!rest.to_set().contains(s.last()));
        }
    }
}

/// Taking an element out of a sequence does not raise the number of
/// elements in excess.
pub proof fn lemma_surplus_remove<T>(s: Seq<Option<T>>, k: int, limit: nat)
    requires
        0 <= k < s.len(),
    ensures
        surplus(s.remove(k), limit) <= surplus(s, limit),
    decreases s.len(),
{
    let last = s.len() - 1;
    if k != last {
        let shorter = s.remove(k);
        lemma_surplus_remove(s.drop_last(), k, limit);
        assert(shorter.take(last - 1) =~= s.take(last).remove(k));
        lemma_occurrences_remove(s.take(last), k, s.last());
    }
}

} // verus!
