//! Facts about keeping a sequence stably ordered by an integer key.
//!
//! A sequence `r` is a stable sort of `s` by `key` when `r` is ordered by
//! `key` and, for every key value, the items of `r` with that key are the
//! items of `s` with that key, in the same order.

use vstd::prelude::*;

verus! {

/// The items of `s` whose key is `k`, in their order in `s`.
pub open spec fn with_key<A>(s: Seq<A>, key: spec_fn(A) -> int, k: int) -> Seq<A> {
    s.filter(has_key(key, k))
}

/// The test "has key `k`".
pub open spec fn has_key<A>(key: spec_fn(A) -> int, k: int) -> spec_fn(A) -> bool {
    |x: A| key(x) == k
}

/// `s` is ordered by `key`, smallest first.
pub open spec fn ordered_by<A>(s: Seq<A>, key: spec_fn(A) -> int) -> bool {
    forall|i: int, j: int| 0 <= i <= j < s.len() ==> key(#[trigger] s[i]) <= key(#[trigger] s[j])
}

/// `r` is the stable sort of `s` by `key`.
pub open spec fn is_stable_sort_of<A>(r: Seq<A>, s: Seq<A>, key: spec_fn(A) -> int) -> bool {
    &&& ordered_by(r, key)
    &&& forall|k: int| #[trigger] with_key(r, key, k) == with_key(s, key, k)
}

/// A sequence in which no item has key `k` has no items with key `k`.
pub proof fn lemma_with_key_none<A>(s: Seq<A>, key: spec_fn(A) -> int, k: int)
    requires
        forall|i: int| 0 <= i < s.len() ==> key(#[trigger] s[i]) != k,
    ensures
        with_key(s, key, k) == Seq::<A>::empty(),
    decreases s.len(),
{
    reveal(Seq::filter);
    if s.len() > 0 {
        lemma_with_key_none(s.drop_last(), key, k);
    }
}

/// Inserting `x` into an ordered sequence after every item with a key at most
/// `key(x)`, and before every item with a larger key, keeps it ordered.
proof fn lemma_insert_ordered<A>(r: Seq<A>, key: spec_fn(A) -> int, x: A, p: int)
    requires
        ordered_by(r, key),
        0 <= p <= r.len(),
        forall|j: int| 0 <= j < p ==> key(#[trigger] r[j]) <= key(x),
        p < r.len() ==> key(r[p]) > key(x),
    ensures
        ordered_by(r.insert(p, x), key),
{
    let out = r.insert(p, x);
    r.insert_ensures(p, x);
    assert forall|j: int| p <= j < r.len() implies key(#[trigger] r[j]) > key(x) by {
        assert(key(r[p]) <= key(r[j]));
    }
    assert forall|i: int, j: int| 0 <= i <= j < out.len() implies key(#[trigger] out[i]) <= key(
        #[trigger] out[j],
    ) by {
        if i < p {
            if j > p {
                assert(out[j] == r[j - 1]);
            }
        } else if i == p {
            if j > p {
                assert(out[j] == r[j - 1]);
            }
        } else {
            assert(out[i] == r[i - 1]);
            assert(out[j] == r[j - 1]);
        }
    }
}

/// Inserting `x` into a stable sort of `s` just after the last item whose key is
/// at most `key(x)` gives a stable sort of `s.push(x)`.
pub proof fn lemma_insert_sorted<A>(r: Seq<A>, s: Seq<A>, key: spec_fn(A) -> int, x: A, p: int)
    requires
        is_stable_sort_of(r, s, key),
        0 <= p <= r.len(),
        forall|j: int| 0 <= j < p ==> key(#[trigger] r[j]) <= key(x),
        p < r.len() ==> key(r[p]) > key(x),
    ensures
        is_stable_sort_of(r.insert(p, x), s.push(x), key),
{
    lemma_insert_ordered(r, key, x, p);
    assert forall|k: int| #[trigger] with_key(r.insert(p, x), key, k) == with_key(s.push(x), key, k) by {
        lemma_insert_with_key(r, s, key, x, p, k);
    }
}

proof fn lemma_insert_with_key<A>(r: Seq<A>, s: Seq<A>, key: spec_fn(A) -> int, x: A, p: int, k: int)
    requires
        is_stable_sort_of(r, s, key),
        0 <= p <= r.len(),
        p < r.len() ==> key(r[p]) > key(x),
    ensures
        with_key(r.insert(p, x), key, k) == with_key(s.push(x), key, k),
{
    let out = r.insert(p, x);
    let front = r.subrange(0, p);
    let back = r.subrange(p, r.len() as int);
    let f = has_key(key, k);
    assert(r == front + back);
    assert(out == front.push(x) + back);
    Seq::filter_distributes_over_add(front.push(x), back, f);
    Seq::filter_distributes_over_add(front, back, f);
    front.lemma_filter_push(x, f);
    s.lemma_filter_push(x, f);
    assert(with_key(r, key, k) == with_key(s, key, k));
    if key(x) == k {
        assert forall|i: int| 0 <= i < back.len() implies key(#[trigger] back[i]) != k by {
            assert(back[i] == r[p + i]);
            assert(key(r[p]) <= key(r[p + i]));
        }
        lemma_with_key_none(back, key, k);
        assert(with_key(r, key, k) == with_key(front, key, k));
    }
}

} // verus!
