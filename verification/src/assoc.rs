//! Association lists keyed by strings.
//!
//! A `Seq<(Seq<char>, V)>` read as a map: the value of a key is the one in
//! its last entry. The stores of the crate keep their keys distinct, which
//! makes the map hold exactly one value per entry.

use vstd::prelude::*;

verus! {

/// The value of `k` in `s`: the one of its last entry, if any.
pub open spec fn lookup<V>(s: Seq<(Seq<char>, V)>, k: Seq<char>) -> Option<V>
    decreases s.len(),
{
    if s.len() == 0 {
        None
    } else if s.last().0 == k {
        Some(s.last().1)
    } else {
        lookup(s.drop_last(), k)
    }
}

/// `s` read as a map.
pub open spec fn assoc_map<V>(s: Seq<(Seq<char>, V)>) -> Map<Seq<char>, V> {
    Map::new(|k: Seq<char>| lookup(s, k) is Some, |k: Seq<char>| lookup(s, k)->0)
}

/// The keys of `s`, in order.
pub open spec fn keys<V>(s: Seq<(Seq<char>, V)>) -> Seq<Seq<char>> {
    s.map_values(|e: (Seq<char>, V)| e.0)
}

/// No key occurs in two entries.
pub open spec fn distinct_keys<V>(s: Seq<(Seq<char>, V)>) -> bool {
    forall|i: int, j: int| 0 <= i < j < s.len() ==> #[trigger] s[i].0 != #[trigger] s[j].0
}

/// A key has a value exactly when some entry holds it; with distinct keys
/// that value is the entry's.
pub proof fn lemma_lookup_entries<V>(s: Seq<(Seq<char>, V)>)
    ensures
        forall|k: Seq<char>|
            #![trigger lookup(s, k)]
            (lookup(s, k) is Some) <==> exists|i: int| 0 <= i < s.len() && s[i].0 == k,
        distinct_keys(s) ==> forall|i: int|
            0 <= i < s.len() ==> lookup(s, #[trigger] s[i].0) == Some(s[i].1),
    decreases s.len(),
{
    if s.len() > 0 {
        let t = s.drop_last();
        lemma_lookup_entries(t);
        assert forall|k: Seq<char>|
            (lookup(s, k) is Some) <==> exists|i: int| 0 <= i < s.len() && s[i].0 == k by {
            if lookup(s, k) is Some {
                if s.last().0 != k {
                    assert(lookup(t, k) is Some);
                    let i = choose|i: int| 0 <= i < t.len() && t[i].0 == k;
                    assert(s[i] == t[i]);
                } else {
                    assert(s[s.len() - 1].0 == k);
                }
            }
            if exists|i: int| 0 <= i < s.len() && s[i].0 == k {
                let i = choose|i: int| 0 <= i < s.len() && s[i].0 == k;
                if i < s.len() - 1 && s.last().0 != k {
                    assert(t[i].0 == k);
                    assert(lookup(t, k) is Some);
                }
            }
        }
        if distinct_keys(s) {
            assert forall|i: int| 0 <= i < s.len() implies lookup(s, #[trigger] s[i].0) == Some(
                s[i].1,
            ) by {
                if i < s.len() - 1 {
                    assert(t[i] == s[i]);
                    assert(s[i].0 != s[s.len() - 1].0);
                }
            }
        }
    }
}

/// Setting the value of the entry at `k` sets that key's value and leaves
/// every other key's alone.
pub proof fn lemma_lookup_update<V>(s: Seq<(Seq<char>, V)>, k: int, v: V)
    requires
        0 <= k < s.len(),
        distinct_keys(s),
    ensures
        distinct_keys(s.update(k, (s[k].0, v))),
        assoc_map(s.update(k, (s[k].0, v))) == assoc_map(s).insert(s[k].0, v),
{
    let t = s.update(k, (s[k].0, v));
    assert forall|i: int, j: int| 0 <= i < j < t.len() implies #[trigger] t[i].0 != #[trigger] t[j].0 by {
        assert(s[i].0 != s[j].0);
    }
    lemma_lookup_entries(s);
    lemma_lookup_entries(t);
    assert forall|o: Seq<char>| #[trigger] lookup(t, o) == if o == s[k].0 {
        Some(v)
    } else {
        lookup(s, o)
    } by {
        if o == s[k].0 {
            assert(t[k].0 == o);
        } else {
            if lookup(t, o) is Some {
                let i = choose|i: int| 0 <= i < t.len() && t[i].0 == o;
                assert(s[i].0 == o);
                assert(lookup(s, s[i].0) == Some(s[i].1));
                assert(lookup(t, t[i].0) == Some(t[i].1));
            } else if lookup(s, o) is Some {
                let i = choose|i: int| 0 <= i < s.len() && s[i].0 == o;
                assert(t[i].0 == o);
            }
        }
    }
    assert(assoc_map(t) =~= assoc_map(s).insert(s[k].0, v));
}

/// Appending an entry for a new key adds that key.
pub proof fn lemma_lookup_push<V>(s: Seq<(Seq<char>, V)>, key: Seq<char>, v: V)
    requires
        distinct_keys(s),
        !assoc_map(s).contains_key(key),
    ensures
        distinct_keys(s.push((key, v))),
        assoc_map(s.push((key, v))) == assoc_map(s).insert(key, v),
{
    let t = s.push((key, v));
    lemma_lookup_entries(s);
    assert forall|i: int, j: int| 0 <= i < j < t.len() implies #[trigger] t[i].0 != #[trigger] t[j].0 by {
        if j == t.len() - 1 {
            assert(lookup(s, s[i].0) is Some);
        } else {
            assert(s[i].0 != s[j].0);
        }
    }
    assert(t.drop_last() =~= s);
    assert(assoc_map(t) =~= assoc_map(s).insert(key, v));
}

/// Removing the entry at `k` removes its key and keeps every other key's
/// value.
pub proof fn lemma_lookup_remove<V>(s: Seq<(Seq<char>, V)>, k: int)
    requires
        0 <= k < s.len(),
        distinct_keys(s),
    ensures
        distinct_keys(s.remove(k)),
        assoc_map(s.remove(k)) == assoc_map(s).remove(s[k].0),
{
    let t = s.remove(k);
    assert forall|i: int, j: int| 0 <= i < j < t.len() implies #[trigger] t[i].0 != #[trigger] t[j].0 by {
        let a = if i < k { i } else { i + 1 };
        let b = if j < k { j } else { j + 1 };
        assert(t[i] == s[a]);
        assert(t[j] == s[b]);
        assert(s[a].0 != s[b].0);
    }
    lemma_lookup_entries(s);
    lemma_lookup_entries(t);
    assert forall|o: Seq<char>| #[trigger] lookup(t, o) == if o == s[k].0 {
        None
    } else {
        lookup(s, o)
    } by {
        if lookup(t, o) is Some {
            let i = choose|i: int| 0 <= i < t.len() && t[i].0 == o;
            let a = if i < k { i } else { i + 1 };
            assert(t[i] == s[a]);
            assert(a != k);
            assert(s[a].0 != s[k].0);
            assert(lookup(s, s[a].0) == Some(s[a].1));
            assert(lookup(t, t[i].0) == Some(t[i].1));
        } else if lookup(s, o) is Some && o != s[k].0 {
            let i = choose|i: int| 0 <= i < s.len() && s[i].0 == o;
            let a = if i < k { i } else { i - 1 };
            assert(i != k);
            assert(t[a] == s[i]);
        }
    }
    assert(assoc_map(t) =~= assoc_map(s).remove(s[k].0));
}

/// With distinct keys the map has one key per entry.
pub proof fn lemma_assoc_len<V>(s: Seq<(Seq<char>, V)>)
    requires
        distinct_keys(s),
    ensures
        assoc_map(s).dom().finite(),
        assoc_map(s).len() == s.len(),
{
    lemma_lookup_entries(s);
    let ks = keys(s);
    assert forall|i: int, j: int| 0 <= i < ks.len() && 0 <= j < ks.len() && i != j implies ks[i]
        != ks[j] by {
        if i < j {
            assert(s[i].0 != s[j].0);
        } else {
            assert(s[j].0 != s[i].0);
        }
    }
    assert(ks.no_duplicates());
    ks.unique_seq_to_set();
    assert forall|o: Seq<char>| #[trigger] assoc_map(s).dom().contains(o) == ks.to_set().contains(o) by {
        if ks.to_set().contains(o) {
            let i = choose|i: int| 0 <= i < ks.len() && ks[i] == o;
            assert(s[i].0 == o);
        }
        if assoc_map(s).dom().contains(o) {
            let i = choose|i: int| 0 <= i < s.len() && s[i].0 == o;
            assert(ks[i] == o);
        }
    }
    assert(assoc_map(s).dom() =~= ks.to_set());
}

} // verus!
