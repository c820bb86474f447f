//! Sequences of key and value pairs, read as maps.
//!
//! The ledger keeps its users and each user's savings in vectors. This module
//! says which map such a vector stands for and how pushing an entry or
//! replacing one changes that map.
use vstd::prelude::*;

verus! {

/// No key occurs twice in `s`.
pub open spec fn distinct_keys<K, V>(s: Seq<(K, V)>) -> bool {
    forall|i: int, j: int| 0 <= i < j < s.len() ==> s[i].0 != s[j].0
}

/// `k` is the key of some entry of `s`.
pub open spec fn has_key<K, V>(s: Seq<(K, V)>, k: K) -> bool {
    exists|i: int| 0 <= i < s.len() && (#[trigger] s[i]).0 == k
}

/// The map that `s` stands for: each key with its value, a later entry
/// taking the place of an earlier one with the same key.
pub open spec fn to_map<K, V>(s: Seq<(K, V)>) -> Map<K, V>
    decreases s.len(),
{
    if s.len() == 0 {
        Map::empty()
    } else {
        to_map(s.drop_last()).insert(s.last().0, s.last().1)
    }
}

/// The keys of the map are the keys of the entries.
pub proof fn lemma_to_map_dom<K, V>(s: Seq<(K, V)>, k: K)
    ensures
        to_map(s).dom().contains(k) <==> has_key(s, k),
    decreases s.len(),
{
    if s.len() > 0 {
        let t = s.drop_last();
        lemma_to_map_dom(t, k);
        if has_key(t, k) {
            let i = choose|i: int| 0 <= i < t.len() && (#[trigger] t[i]).0 == k;
            assert(s[i].0 == k);
        }
        if s.last().0 == k {
            assert(s[s.len() - 1].0 == k);
        }
        if has_key(s, k) && s.last().0 != k {
            let i = choose|i: int| 0 <= i < s.len() && (#[trigger] s[i]).0 == k;
            assert(t[i].0 == k);
        }
    }
}

/// Where no key occurs twice, the map gives each entry's key that entry's value.
pub proof fn lemma_to_map_at<K, V>(s: Seq<(K, V)>, i: int)
    requires
        distinct_keys(s),
        0 <= i < s.len(),
    ensures
        to_map(s).dom().contains(s[i].0),
        to_map(s)[s[i].0] == s[i].1,
    decreases s.len(),
{
    if i < s.len() - 1 {
        let t = s.drop_last();
        assert(distinct_keys(t)) by {
            assert forall|a: int, b: int| 0 <= a < b < t.len() implies t[a].0 != t[b].0 by {
                assert(s[a].0 != s[b].0);
            }
        }
        lemma_to_map_at(t, i);
        assert(s[i].0 != s[s.len() - 1].0);
    }
}

/// Pushing an entry inserts it into the map.
pub proof fn lemma_to_map_push<K, V>(s: Seq<(K, V)>, k: K, v: V)
    ensures
        to_map(s.push((k, v))) == to_map(s).insert(k, v),
{
    assert(s.push((k, v)).drop_last() =~= s);
}

/// Where no key occurs twice, giving an entry a new value inserts that value
/// under the entry's key.
pub proof fn lemma_to_map_update<K, V>(s: Seq<(K, V)>, i: int, v: V)
    requires
        distinct_keys(s),
        0 <= i < s.len(),
    ensures
        to_map(s.update(i, (s[i].0, v))) == to_map(s).insert(s[i].0, v),
    decreases s.len(),
{
    let u = s.update(i, (s[i].0, v));
    let t = s.drop_last();
    if i == s.len() - 1 {
        assert(u.drop_last() =~= t);
        assert(to_map(u) =~= to_map(s).insert(s[i].0, v));
    } else {
        assert(distinct_keys(t)) by {
            assert forall|a: int, b: int| 0 <= a < b < t.len() implies t[a].0 != t[b].0 by {
                assert(s[a].0 != s[b].0);
            }
        }
        lemma_to_map_update(t, i, v);
        assert(u.drop_last() =~= t.update(i, (t[i].0, v)));
        assert(s[i].0 != s[s.len() - 1].0);
        assert(to_map(u) =~= to_map(s).insert(s[i].0, v));
    }
}

/// Where no key occurs twice, the map has as many keys as there are entries.
pub proof fn lemma_to_map_len<K, V>(s: Seq<(K, V)>)
    requires
        distinct_keys(s),
    ensures
        to_map(s).dom().finite(),
        to_map(s).dom().len() == s.len(),
    decreases s.len(),
{
    if s.len() > 0 {
        let t = s.drop_last();
        let k = s.last().0;
        assert(distinct_keys(t)) by {
            assert forall|a: int, b: int| 0 <= a < b < t.len() implies t[a].0 != t[b].0 by {
                assert(s[a].0 != s[b].0);
            }
        }
        lemma_to_map_len(t);
        lemma_to_map_dom(t, k);
        if has_key(t, k) {
            let i = choose|i: int| 0 <= i < t.len() && (#[trigger] t[i]).0 == k;
            assert(s[i].0 != s[s.len() - 1].0);
        }
        assert(to_map(s).dom() =~= to_map(t).dom().insert(k));
    }
}

/// Giving an entry a new value keeps the keys distinct.
pub proof fn lemma_distinct_update<K, V>(s: Seq<(K, V)>, i: int, v: V)
    requires
        distinct_keys(s),
        0 <= i < s.len(),
    ensures
        distinct_keys(s.update(i, (s[i].0, v))),
{
    let u = s.update(i, (s[i].0, v));
    assert forall|a: int, b: int| 0 <= a < b < u.len() implies u[a].0 != u[b].0 by {
        assert(s[a].0 != s[b].0);
    }
}

/// Pushing an entry under a key that no entry has keeps the keys distinct.
pub proof fn lemma_distinct_push<K, V>(s: Seq<(K, V)>, k: K, v: V)
    requires
        distinct_keys(s),
        !has_key(s, k),
    ensures
        distinct_keys(s.push((k, v))),
{
    let u = s.push((k, v));
    assert forall|a: int, b: int| 0 <= a < b < u.len() implies u[a].0 != u[b].0 by {
        if b == s.len() {
            assert(s[a].0 != k);
        } else {
            assert(s[a].0 != s[b].0);
        }
    }
}

} // verus!
