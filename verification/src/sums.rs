//! Sums of a weight over a sequence, and the facts the library needs of them.

use vstd::prelude::*;

verus! {

/// The sum of `w` over the items of `s`.
pub open spec fn sum_of<A>(s: Seq<A>, w: spec_fn(A) -> int) -> int
    decreases s.len(),
{
    if s.len() == 0 {
        0
    } else {
        sum_of(s.drop_last(), w) + w(s.last())
    }
}

/// Appending an item adds its weight.
pub proof fn lemma_sum_push<A>(s: Seq<A>, w: spec_fn(A) -> int, x: A)
    ensures
        sum_of(s.push(x), w) == sum_of(s, w) + w(x),
{
    assert(s.push(x).drop_last() == s);
}

/// With weights that are never negative, a prefix weighs at most the whole.
pub proof fn lemma_sum_prefix<A>(s: Seq<A>, w: spec_fn(A) -> int, i: int)
    requires
        0 <= i <= s.len(),
        forall|j: int| 0 <= j < s.len() ==> w(#[trigger] s[j]) >= 0,
    ensures
        0 <= sum_of(s.take(i), w) <= sum_of(s, w),
    decreases s.len(),
{
    if i < s.len() {
        assert(s.drop_last().take(i) == s.take(i));
        lemma_sum_prefix(s.drop_last(), w, i);
    } else {
        assert(s.take(i) == s);
        if s.len() > 0 {
            assert(w(s[s.len() - 1]) >= 0);
            lemma_sum_prefix(s.drop_last(), w, i - 1);
            assert(s.drop_last().take(i - 1) == s.drop_last());
        }
    }
}

/// With weights that are never negative, the sum is never negative.
pub proof fn lemma_sum_nonneg<A>(s: Seq<A>, w: spec_fn(A) -> int)
    requires
        forall|j: int| 0 <= j < s.len() ==> w(#[trigger] s[j]) >= 0,
    ensures
        sum_of(s, w) >= 0,
    decreases s.len(),
{
    if s.len() > 0 {
        assert forall|j: int| 0 <= j < s.drop_last().len() implies w(#[trigger] s.drop_last()[j]) >= 0 by {
            assert(s.drop_last()[j] == s[j]);
        }
        lemma_sum_nonneg(s.drop_last(), w);
        assert(w(s[s.len() - 1]) >= 0);
    }
}

/// Taking one more item of the prefix adds its weight.
pub proof fn lemma_sum_take_next<A>(s: Seq<A>, w: spec_fn(A) -> int, i: int)
    requires
        0 <= i < s.len(),
    ensures
        sum_of(s.take(i + 1), w) == sum_of(s.take(i), w) + w(s[i]),
{
    assert(s.take(i + 1).drop_last() == s.take(i));
}

/// Removing the item at `j` removes its weight.
pub proof fn lemma_sum_remove<A>(s: Seq<A>, w: spec_fn(A) -> int, j: int)
    requires
        0 <= j < s.len(),
    ensures
        sum_of(s, w) == sum_of(s.remove(j), w) + w(s[j]),
    decreases s.len(),
{
    if j == s.len() - 1 {
        assert(s.remove(j) == s.drop_last());
    } else {
        assert(s.remove(j).drop_last() == s.drop_last().remove(j));
        assert(s.remove(j).last() == s.last());
        lemma_sum_remove(s.drop_last(), w, j);
    }
}

/// Two sequences holding the same items, in any order, have the same sum.
pub proof fn lemma_sum_permutation<A>(r: Seq<A>, s: Seq<A>, w: spec_fn(A) -> int)
    requires
        r.to_multiset() == s.to_multiset(),
    ensures
        sum_of(r, w) == sum_of(s, w),
    decreases r.len(),
{
    broadcast use vstd::seq_lib::group_to_multiset_ensures;

    assert(r.len() == r.to_multiset().len());
    assert(s.len() == s.to_multiset().len());
    if r.len() > 0 {
        let x = r.last();
        let n = r.len() - 1;
        assert(r.contains(x)) by {
            assert(r[n] == x);
        }
        assert(r.to_multiset().count(x) > 0);
        assert(s.contains(x));
        let j = choose|j: int| 0 <= j < s.len() && s[j] == x;
        assert(r.remove(n) == r.drop_last());
        assert(r.remove(n).to_multiset() == r.to_multiset().remove(x));
        assert(s.remove(j).to_multiset() == s.to_multiset().remove(x));
        lemma_sum_permutation(r.drop_last(), s.remove(j), w);
        lemma_sum_remove(s, w, j);
    }
}

} // verus!
