//! Maps held as sequences of key and value pairs with distinct keys.

use vstd::prelude::*;

verus! {

/// The map a sequence of pairs stands for; a later pair wins over an earlier
/// one with the same key.
pub open spec fn pair_map<K, V>(s: Seq<(K, V)>) -> Map<K, V>
    decreases s.len(),
{
    if s.len() == 0 {
        Map::empty()
    } else {
        pair_map(s.drop_last()).insert(s.last().0, s.last().1)
    }
}

/// No key occurs twice.
pub open spec fn keys_unique<K, V>(s: Seq<(K, V)>) -> bool {
    forall|i: int, j: int| 0 <= i < j < s.len() ==> (#[trigger] s[i]).0 != (#[trigger] s[j]).0
}

/// The keys of the map are the keys of the pairs, and the map is finite.
pub proof fn lemma_pair_map_dom<K, V>(s: Seq<(K, V)>)
    ensures
        pair_map(s).dom().finite(),
        forall|k: K| #[trigger]
            pair_map(s).dom().contains(k) <==> exists|i: int| 0 <= i < s.len() && s[i].0 == k,
    decreases s.len(),
{
    if s.len() > 0 {
        lemma_pair_map_dom(s.drop_last());
        assert forall|k: K| #[trigger] pair_map(s).dom().contains(k) implies exists|i: int|
            0 <= i < s.len() && s[i].0 == k by {
            if k != s.last().0 {
                let i = choose|i: int| 0 <= i < s.drop_last().len() && s.drop_last()[i].0 == k;
                assert(s[i].0 == k);
            }
        }
        assert forall|k: K| (exists|i: int| 0 <= i < s.len() && s[i].0 == k) implies #[trigger] pair_map(
            s,
        ).dom().contains(k) by {
            let i = choose|i: int| 0 <= i < s.len() && s[i].0 == k;
            if i < s.len() - 1 {
                assert(s.drop_last()[i].0 == k);
            }
        }
    }
}

/// With distinct keys, each pair's key maps to its value.
pub proof fn lemma_pair_map_index<K, V>(s: Seq<(K, V)>, i: int)
    requires
        keys_unique(s),
        0 <= i < s.len(),
    ensures
        pair_map(s).dom().contains(s[i].0),
        pair_map(s)[s[i].0] == s[i].1,
    decreases s.len(),
{
    if i < s.len() - 1 {
        lemma_pair_map_index(s.drop_last(), i);
        assert(s[i].0 != s[s.len() - 1].0);
    }
}

/// With distinct keys, the map has as many keys as there are pairs.
pub proof fn lemma_pair_map_len<K, V>(s: Seq<(K, V)>)
    requires
        keys_unique(s),
    ensures
        pair_map(s).dom().len() == s.len(),
    decreases s.len(),
{
    lemma_pair_map_dom(s);
    if s.len() > 0 {
        lemma_pair_map_dom(s.drop_last());
        lemma_pair_map_len(s.drop_last());
        assert(!pair_map(s.drop_last()).dom().contains(s.last().0)) by {
            if pair_map(s.drop_last()).dom().contains(s.last().0) {
                let i = choose|i: int| 0 <= i < s.drop_last().len() && s.drop_last()[i].0 == s.last().0;
                assert(s[i].0 == s[s.len() - 1].0);
            }
        }
    }
}

/// Replacing the value of the pair at `i` replaces the value of its key.
pub proof fn lemma_pair_map_update<K, V>(s: Seq<(K, V)>, i: int, v: V)
    requires
        keys_unique(s),
        0 <= i < s.len(),
    ensures
        keys_unique(s.update(i, (s[i].0, v))),
        pair_map(s.update(i, (s[i].0, v))) == pair_map(s).insert(s[i].0, v),
    decreases s.len(),
{
    let t = s.update(i, (s[i].0, v));
    assert forall|a: int, b: int| 0 <= a < b < t.len() implies (#[trigger] t[a]).0 != (
    #[trigger] t[b]).0 by {
        assert(t[a].0 == s[a].0);
        assert(t[b].0 == s[b].0);
    }
    if i == s.len() - 1 {
        assert(t.drop_last() == s.drop_last());
    } else {
        assert(t.drop_last() == s.drop_last().update(i, (s[i].0, v)));
        lemma_pair_map_update(s.drop_last(), i, v);
        assert(s[i].0 != s.last().0);
    }
}

/// Appending a pair with a new key keeps the keys distinct and adds the key.
pub proof fn lemma_pair_map_push<K, V>(s: Seq<(K, V)>, k: K, v: V)
    requires
        keys_unique(s),
        !pair_map(s).dom().contains(k),
    ensures
        keys_unique(s.push((k, v))),
        pair_map(s.push((k, v))) == pair_map(s).insert(k, v),
{
    lemma_pair_map_dom(s);
    let t = s.push((k, v));
    assert(t.drop_last() == s);
    assert forall|a: int, b: int| 0 <= a < b < t.len() implies (#[trigger] t[a]).0 != (
    #[trigger] t[b]).0 by {
        if b == s.len() {
            assert(t[a] == s[a]);
        } else {
            assert(t[a] == s[a]);
            assert(t[b] == s[b]);
        }
    }
}

/// The position of the pair with key `k`, if any.
pub fn find_key<V>(s: &Vec<(u64, V)>, k: u64) -> (r: Option<usize>)
    ensures
        match r {
            Some(i) => i < s@.len() && s@[i as int].0 == k,
            None => forall|i: int| 0 <= i < s@.len() ==> (#[trigger] s@[i]).0 != k,
        },
{
    let n = s.len();
    for i in 0..n
        invariant
            n == s@.len(),
            forall|j: int| 0 <= j < i ==> (#[trigger] s@[j]).0 != k,
    {
        if s[i].0 == k {
            return Some(i);
        }
    }
    None
}

/// The position of the pair with key `k`, if any, for keys that are pairs.
pub fn find_pair_key<V>(s: &Vec<((u64, u64), V)>, k: (u64, u64)) -> (r: Option<usize>)
    ensures
        match r {
            Some(i) => i < s@.len() && s@[i as int].0 == k,
            None => forall|i: int| 0 <= i < s@.len() ==> (#[trigger] s@[i]).0 != k,
        },
{
    let n = s.len();
    for i in 0..n
        invariant
            n == s@.len(),
            forall|j: int| 0 <= j < i ==> (#[trigger] s@[j]).0 != k,
    {
        if s[i].0.0 == k.0 && s[i].0.1 == k.1 {
            return Some(i);
        }
    }
    None
}

} // verus!
