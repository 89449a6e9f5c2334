//! Searching sequences.

use vstd::prelude::*;

verus! {

/// The position of the first element of `s` that satisfies `f`; the length
/// of `s` if there is none.
pub open spec fn first_where<T>(s: Seq<T>, f: spec_fn(T) -> bool) -> int
    decreases s.len(),
{
    if s.len() == 0 {
        0
    } else if f(s[0]) {
        0
    } else {
        1 + first_where(s.drop_first(), f)
    }
}

/// The first element that satisfies `f` stands where no element before
/// satisfies it, and either it does or the sequence ends.
pub proof fn lemma_first_where<T>(s: Seq<T>, f: spec_fn(T) -> bool, k: int)
    requires
        0 <= k <= s.len(),
        forall|j: int| 0 <= j < k ==> !f(#[trigger] s[j]),
        k < s.len() ==> f(s[k]),
    ensures
        first_where(s, f) == k,
    decreases s.len(),
{
    if s.len() > 0 && k > 0 {
        let rest = s.drop_first();
        assert forall|j: int| 0 <= j < k - 1 implies !f(#[trigger] rest[j]) by {}
        lemma_first_where(rest, f, k - 1);
    }
}

/// What [`first_where`] finds: a position within the sequence or its end,
/// before which no element satisfies `f`, and an element that satisfies it
/// unless it is the end.
pub proof fn lemma_first_where_found<T>(s: Seq<T>, f: spec_fn(T) -> bool)
    ensures
        0 <= first_where(s, f) <= s.len(),
        forall|j: int| 0 <= j < first_where(s, f) ==> !f(#[trigger] s[j]),
        first_where(s, f) < s.len() ==> f(s[first_where(s, f)]),
        first_where(s, f) < s.len() <==> exists|j: int| 0 <= j < s.len() && f(#[trigger] s[j]),
    decreases s.len(),
{
    if s.len() > 0 && !f(s[0]) {
        let rest = s.drop_first();
        lemma_first_where_found(rest, f);
        let k = first_where(rest, f);
        assert forall|j: int| 0 <= j < k + 1 implies !f(#[trigger] s[j]) by {
            if j > 0 {
                assert(rest[j - 1] == s[j]);
            }
        }
    }
}

} // verus!
