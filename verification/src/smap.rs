//! Maps keyed by strings, kept as vectors of entries in strictly increasing
//! key order (so iteration visits keys in sorted order, as a B-tree map does).
use vstd::prelude::*;

use crate::text::{
    lemma_seq_lt_asymmetric, lemma_seq_lt_irreflexive, lemma_seq_lt_total,
    lemma_seq_lt_transitive, seq_lt, str_eq, str_lt,
};

verus! {

/// Keys strictly increase along the entries.
pub open spec fn sorted_keys<V>(s: Seq<(String, V)>) -> bool {
    forall|i: int, j: int| 0 <= i < j < s.len() ==> seq_lt(#[trigger] s[i].0@, #[trigger] s[j].0@)
}

/// Whether some entry has key `k`.
pub open spec fn has_key<V>(s: Seq<(String, V)>, k: Seq<char>) -> bool {
    exists|i: int| 0 <= i < s.len() && #[trigger] s[i].0@ == k
}

/// The value stored under key `k`, if any.
pub open spec fn lookup<V>(s: Seq<(String, V)>, k: Seq<char>) -> Option<V> {
    if has_key(s, k) {
        Some(s[choose|i: int| 0 <= i < s.len() && #[trigger] s[i].0@ == k].1)
    } else {
        None
    }
}

/// The entries as a map from keys to the views of the values.
pub open spec fn view_map<V: View>(s: Seq<(String, V)>) -> Map<Seq<char>, V::V> {
    Map::new(|k: Seq<char>| has_key(s, k), |k: Seq<char>| lookup(s, k)->0@)
}

/// The map view after storing `val` under `key`.
pub proof fn lemma_view_map_insert<V: View>(s0: Seq<(String, V)>, s1: Seq<(String, V)>, key: Seq<char>, val: V)
    requires
        lookup(s1, key) == Some(val),
        forall|k: Seq<char>| k != key ==> lookup(s1, k) == lookup(s0, k),
    ensures
        view_map(s1) == view_map(s0).insert(key, val@),
{
    let m = view_map(s0).insert(key, val@);
    assert forall|k: Seq<char>| #[trigger] view_map(s1).contains_key(k) == m.contains_key(k) by {
        if k != key {
            assert(lookup(s1, k) == lookup(s0, k));
        }
    }
    assert forall|k: Seq<char>| view_map(s1).contains_key(k) implies #[trigger] view_map(s1)[k]
        == m[k] by {
        if k != key {
            assert(lookup(s1, k) == lookup(s0, k));
        }
    }
    assert(view_map(s1) =~= m);
}

/// The map view after removing `key`.
pub proof fn lemma_view_map_remove<V: View>(s0: Seq<(String, V)>, s1: Seq<(String, V)>, key: Seq<char>)
    requires
        lookup(s1, key) is None,
        forall|k: Seq<char>| k != key ==> lookup(s1, k) == lookup(s0, k),
    ensures
        view_map(s1) == view_map(s0).remove(key),
{
    let m = view_map(s0).remove(key);
    assert forall|k: Seq<char>| #[trigger] view_map(s1).contains_key(k) == m.contains_key(k) by {
        if k != key {
            assert(lookup(s1, k) == lookup(s0, k));
        }
    }
    assert forall|k: Seq<char>| view_map(s1).contains_key(k) implies #[trigger] view_map(s1)[k]
        == m[k] by {
        if k != key {
            assert(lookup(s1, k) == lookup(s0, k));
        }
    }
    assert(view_map(s1) =~= m);
}

/// The keys of the entries, in order.
pub open spec fn keys_of<V>(s: Seq<(String, V)>) -> Seq<Seq<char>> {
    s.map_values(|e: (String, V)| e.0@)
}

/// In a sorted map, the entry at `i` is the one found under its key.
pub proof fn lemma_lookup_at<V>(s: Seq<(String, V)>, i: int)
    requires
        sorted_keys(s),
        0 <= i < s.len(),
    ensures
        has_key(s, s[i].0@),
        lookup(s, s[i].0@) == Some(s[i].1),
{
    let k = s[i].0@;
    assert(s[i].0@ == k);
    assert forall|j: int| 0 <= j < s.len() && #[trigger] s[j].0@ == k implies j == i by {
        if j != i {
            lemma_seq_lt_irreflexive(k);
            if j < i {
                assert(seq_lt(s[j].0@, s[i].0@));
            } else {
                assert(seq_lt(s[i].0@, s[j].0@));
            }
        }
    }
}

/// The position of key `key`, if present.
pub fn find_index<V>(entries: &Vec<(String, V)>, key: &str) -> (r: Option<usize>)
    ensures
        r matches Some(i) ==> i < entries@.len() && entries@[i as int].0@ == key@,
        r is None ==> !has_key(entries@, key@),
{
    let mut i: usize = 0;
    while i < entries.len()
        invariant
            i <= entries@.len(),
            forall|j: int| 0 <= j < i ==> #[trigger] entries@[j].0@ != key@,
        decreases entries.len() - i,
    {
        if str_eq(entries[i].0.as_str(), key) {
            return Some(i);
        }
        i = i + 1;
    }
    None
}

/// The value stored under `key`, if any.
pub fn get_value<'a, V>(entries: &'a Vec<(String, V)>, key: &str) -> (r: Option<&'a V>)
    requires
        sorted_keys(entries@),
    ensures
        r matches Some(v) ==> lookup(entries@, key@) == Some(*v),
        r is None ==> lookup(entries@, key@) is None,
{
    match find_index(entries, key) {
        Some(i) => {
            proof {
                lemma_lookup_at(entries@, i as int);
            }
            Some(&entries[i].1)
        },
        None => None,
    }
}

/// Stores `val` under `key`, replacing any value already there.
pub fn insert_entry<V>(entries: &mut Vec<(String, V)>, key: String, val: V)
    requires
        sorted_keys(old(entries)@),
    ensures
        sorted_keys(final(entries)@),
        lookup(final(entries)@, key@) == Some(val),
        forall|k: Seq<char>| k != key@ ==> lookup(final(entries)@, k) == lookup(old(entries)@, k),
        has_key(old(entries)@, key@) ==> final(entries)@.len() == old(entries)@.len(),
        !has_key(old(entries)@, key@) ==> final(entries)@.len() == old(entries)@.len() + 1,
{
    let ghost s0 = entries@;
    let mut i: usize = 0;
    while i < entries.len() && str_lt(entries[i].0.as_str(), key.as_str())
        invariant
            i <= entries@.len(),
            entries@ == s0,
            sorted_keys(s0),
            forall|j: int| 0 <= j < i ==> seq_lt(#[trigger] s0[j].0@, key@),
        decreases entries.len() - i,
    {
        i = i + 1;
    }
    // Every key from position `i` on is not below `key`.
    proof {
        assert forall|j: int| i <= j < s0.len() implies !seq_lt(#[trigger] s0[j].0@, key@) by {
            if seq_lt(s0[j].0@, key@) {
                assert(!seq_lt(s0[i as int].0@, key@));
                if j > i {
                    assert(seq_lt(s0[i as int].0@, s0[j].0@));
                    lemma_seq_lt_transitive(s0[i as int].0@, s0[j].0@, key@);
                }
            }
        }
    }
    if i < entries.len() && str_eq(entries[i].0.as_str(), key.as_str()) {
        let ghost kk = key@;
        entries.set(i, (key, val));
        proof {
            let s1 = entries@;
            assert forall|a: int, b: int| 0 <= a < b < s1.len() implies seq_lt(
                #[trigger] s1[a].0@,
                #[trigger] s1[b].0@,
            ) by {
                assert(s1[a].0@ == s0[a].0@);
                assert(s1[b].0@ == s0[b].0@);
            }
            lemma_lookup_at(s1, i as int);
            assert forall|k: Seq<char>| k != kk implies lookup(s1, k) == lookup(s0, k) by {
                if has_key(s0, k) {
                    let j = choose|j: int| 0 <= j < s0.len() && #[trigger] s0[j].0@ == k;
                    lemma_lookup_at(s0, j);
                    assert(s1[j] == s0[j]);
                    lemma_lookup_at(s1, j);
                }
                if has_key(s1, k) {
                    let j = choose|j: int| 0 <= j < s1.len() && #[trigger] s1[j].0@ == k;
                    assert(s1[j] == s0[j]);
                    assert(s0[j].0@ == k);
                }
            }
        }
    } else {
        let ghost kk = key@;
        proof {
            if i < s0.len() {
                lemma_seq_lt_total(s0[i as int].0@, kk);
            }
        }
        entries.insert(i, (key, val));
        proof {
            let s1 = entries@;
            assert forall|j: int| i < j < s1.len() implies seq_lt(kk, #[trigger] s1[j].0@) by {
                assert(s1[j] == s0[j - 1]);
                assert(seq_lt(kk, s0[i as int].0@));
                if j - 1 > i {
                    assert(seq_lt(s0[i as int].0@, s0[j - 1].0@));
                    lemma_seq_lt_transitive(kk, s0[i as int].0@, s0[j - 1].0@);
                }
            }
            assert forall|a: int, b: int| 0 <= a < b < s1.len() implies seq_lt(
                #[trigger] s1[a].0@,
                #[trigger] s1[b].0@,
            ) by {
                if b < i {
                    assert(s1[a] == s0[a] && s1[b] == s0[b]);
                } else if b == i {
                    assert(s1[a] == s0[a]);
                } else if a < i {
                    assert(s1[a] == s0[a]);
                    assert(seq_lt(s0[a].0@, kk));
                    lemma_seq_lt_transitive(s0[a].0@, kk, s1[b].0@);
                } else if a == i {
                } else {
                    assert(s1[a] == s0[a - 1] && s1[b] == s0[b - 1]);
                }
            }
            lemma_lookup_at(s1, i as int);
            assert(!has_key(s0, kk)) by {
                if has_key(s0, kk) {
                    let j = choose|j: int| 0 <= j < s0.len() && #[trigger] s0[j].0@ == kk;
                    lemma_seq_lt_irreflexive(kk);
                    if j < i {
                        assert(seq_lt(s0[j].0@, kk));
                    } else if j == i {
                    } else {
                        assert(seq_lt(s0[i as int].0@, s0[j].0@));
                    }
                }
            }
            assert forall|k: Seq<char>| k != kk implies lookup(s1, k) == lookup(s0, k) by {
                if has_key(s0, k) {
                    let j = choose|j: int| 0 <= j < s0.len() && #[trigger] s0[j].0@ == k;
                    lemma_lookup_at(s0, j);
                    let j1 = if j < i { j } else { j + 1 };
                    assert(s1[j1] == s0[j]);
                    lemma_lookup_at(s1, j1);
                }
                if has_key(s1, k) {
                    let j = choose|j: int| 0 <= j < s1.len() && #[trigger] s1[j].0@ == k;
                    if j < i {
                        assert(s1[j] == s0[j]);
                    } else if j > i {
                        assert(s1[j] == s0[j - 1]);
                    }
                }
            }
        }
    }
}

/// Removes the entry under `key`, returning whether there was one.
pub fn remove_entry<V>(entries: &mut Vec<(String, V)>, key: &str) -> (r: bool)
    requires
        sorted_keys(old(entries)@),
    ensures
        r == has_key(old(entries)@, key@),
        sorted_keys(final(entries)@),
        lookup(final(entries)@, key@) is None,
        forall|k: Seq<char>| k != key@ ==> lookup(final(entries)@, k) == lookup(old(entries)@, k),
{
    let ghost s0 = entries@;
    match find_index(entries, key) {
        None => {
            assert(lookup(s0, key@) is None);
            false
        },
        Some(i) => {
            entries.remove(i);
            proof {
                let s1 = entries@;
                assert forall|a: int, b: int| 0 <= a < b < s1.len() implies seq_lt(
                    #[trigger] s1[a].0@,
                    #[trigger] s1[b].0@,
                ) by {
                    let a0 = if a < i { a } else { a + 1 };
                    let b0 = if b < i { b } else { b + 1 };
                    assert(s1[a] == s0[a0] && s1[b] == s0[b0]);
                }
                lemma_lookup_at(s0, i as int);
                assert(!has_key(s1, key@)) by {
                    if has_key(s1, key@) {
                        let j = choose|j: int| 0 <= j < s1.len() && #[trigger] s1[j].0@ == key@;
                        let j0 = if j < i { j } else { j + 1 };
                        assert(s1[j] == s0[j0]);
                        lemma_seq_lt_irreflexive(key@);
                        if j0 < i {
                            assert(seq_lt(s0[j0].0@, s0[i as int].0@));
                        } else {
                            assert(seq_lt(s0[i as int].0@, s0[j0].0@));
                        }
                    }
                }
                assert forall|k: Seq<char>| k != key@ implies lookup(s1, k) == lookup(s0, k) by {
                    if has_key(s0, k) {
                        let j = choose|j: int| 0 <= j < s0.len() && #[trigger] s0[j].0@ == k;
                        lemma_lookup_at(s0, j);
                        assert(j != i);
                        let j1 = if j < i { j } else { j - 1 };
                        assert(s1[j1] == s0[j]);
                        lemma_lookup_at(s1, j1);
                    }
                    if has_key(s1, k) {
                        let j = choose|j: int| 0 <= j < s1.len() && #[trigger] s1[j].0@ == k;
                        let j0 = if j < i { j } else { j + 1 };
                        assert(s1[j] == s0[j0]);
                    }
                }
            }
            true
        },
    }
}

} // verus!
