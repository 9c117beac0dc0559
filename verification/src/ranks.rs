//! Positions in a list that keeps, in order, the items of another list that pass a test: the
//! `r`-th item that passes is the `r`-th one kept.
use vstd::prelude::*;

verus! {

/// How many of the first `j` items pass the test.
pub open spec fn count_before<A>(s: Seq<A>, p: spec_fn(A) -> bool, j: int) -> nat
    decreases j,
{
    if j <= 0 {
        0
    } else {
        count_before(s, p, j - 1) + if p(s[j - 1]) {
            1nat
        } else {
            0nat
        }
    }
}

/// The count among the first `j` items reads only those items.
pub proof fn lemma_count_before_prefix<A>(s: Seq<A>, t: Seq<A>, p: spec_fn(A) -> bool, j: int)
    requires
        0 <= j <= s.len(),
        j <= t.len(),
        forall|i: int| 0 <= i < j ==> s[i] == t[i],
    ensures
        count_before(s, p, j) == count_before(t, p, j),
    decreases j,
{
    if j > 0 {
        lemma_count_before_prefix(s, t, p, j - 1);
    }
}

/// An item that passes comes before every later one in the count.
pub proof fn lemma_count_before_grows<A>(s: Seq<A>, p: spec_fn(A) -> bool, j: int, k: int)
    requires
        0 <= j < k,
        p(s[j]),
    ensures
        count_before(s, p, j) < count_before(s, p, k),
    decreases k,
{
    if k > j + 1 {
        lemma_count_before_grows(s, p, j, k - 1);
    }
}

/// Counting over a list with its last item dropped counts the same up to that item.
pub proof fn lemma_count_before_drop_last<A>(s: Seq<A>, p: spec_fn(A) -> bool)
    requires
        s.len() > 0,
    ensures
        forall|j: int| 0 <= j < s.len() ==> #[trigger] count_before(s.drop_last(), p, j) == count_before(s, p, j),
{
    assert forall|j: int| 0 <= j < s.len() implies #[trigger] count_before(s.drop_last(), p, j)
        == count_before(s, p, j) by {
        lemma_count_before_prefix(s.drop_last(), s, p, j);
    }
}

} // verus!
