//! Association lists with distinct keys: the storage maps of the contracts.
use vstd::prelude::*;

verus! {

/// Identity of an account or contract on the ledger.
pub type AccountId = u64;

/// No key occurs twice in the list.
pub open spec fn keys_distinct<V>(s: Seq<(u64, V)>) -> bool {
    forall|i: int, j: int| 0 <= i < j < s.len() ==> s[i].0 != s[j].0
}

/// Some entry of the list has key `k`.
pub open spec fn has_key<V>(s: Seq<(u64, V)>, k: u64) -> bool {
    exists|i: int| 0 <= i < s.len() && s[i].0 == k
}

/// The position of the entry with key `k`, where there is one.
pub open spec fn key_index<V>(s: Seq<(u64, V)>, k: u64) -> int {
    choose|i: int| 0 <= i < s.len() && s[i].0 == k
}

/// The map that an association list with distinct keys stands for.
pub open spec fn assoc_view<V>(s: Seq<(u64, V)>) -> Map<u64, V> {
    Map::new(|k: u64| has_key(s, k), |k: u64| s[key_index(s, k)].1)
}

/// In a list with distinct keys, the entry at position `i` is what the map
/// holds under its key.
pub proof fn lemma_assoc_entry<V>(s: Seq<(u64, V)>, i: int)
    requires
        keys_distinct(s),
        0 <= i < s.len(),
    ensures
        assoc_view(s).contains_key(s[i].0),
        assoc_view(s)[s[i].0] == s[i].1,
        key_index(s, s[i].0) == i,
{
    assert(has_key(s, s[i].0));
    let j = key_index(s, s[i].0);
    assert(0 <= j < s.len() && s[j].0 == s[i].0);
    if j != i {
        if j < i {
            assert(s[j].0 != s[i].0);
        } else {
            assert(s[i].0 != s[j].0);
        }
    }
}

/// Finds the position of key `k`.
pub fn assoc_find<V>(v: &Vec<(u64, V)>, k: u64) -> (r: Option<usize>)
    ensures
        match r {
            Some(i) => i < v.len() && v@[i as int].0 == k,
            None => !has_key(v@, k),
        },
        r is None <==> !assoc_view(v@).contains_key(k),
{
    let mut i: usize = 0;
    while i < v.len()
        invariant
            i <= v.len(),
            forall|j: int| 0 <= j < i ==> v@[j].0 != k,
        decreases v.len() - i,
    {
        if v[i].0 == k {
            assert(has_key(v@, k));
            return Some(i);
        }
        i = i + 1;
    }
    None
}

/// The value under key `k`, by reference.
pub fn assoc_get<V>(v: &Vec<(u64, V)>, k: u64) -> (r: Option<&V>)
    requires
        keys_distinct(v@),
    ensures
        match r {
            Some(x) => assoc_view(v@).contains_key(k) && *x == assoc_view(v@)[k],
            None => !assoc_view(v@).contains_key(k),
        },
{
    match assoc_find(v, k) {
        Some(i) => {
            proof {
                lemma_assoc_entry(v@, i as int);
            }
            Some(&v[i].1)
        },
        None => None,
    }
}

/// Sets the value under key `k`, adding the key at the end if it is new.
pub fn assoc_insert<V>(v: &mut Vec<(u64, V)>, k: u64, val: V)
    requires
        keys_distinct(old(v)@),
    ensures
        keys_distinct(final(v)@),
        assoc_view(final(v)@) == assoc_view(old(v)@).insert(k, val),
        match assoc_find_spec(old(v)@, k) {
            Some(i) => final(v)@ == old(v)@.update(i, (k, val)),
            None => final(v)@ == old(v)@.push((k, val)),
        },
{
    let ghost s0 = v@;
    match assoc_find(v, k) {
        Some(i) => {
            proof {
                lemma_assoc_entry(s0, i as int);
            }
            v.set(i, (k, val));
            proof {
                let s1 = v@;
                assert forall|a: int, b: int| 0 <= a < b < s1.len() implies s1[a].0 != s1[b].0 by {
                    assert(s0[a].0 != s0[b].0);
                }
                assert forall|key: u64| #[trigger] assoc_view(s1).contains_key(key)
                    == assoc_view(s0).insert(k, val).contains_key(key) by {
                    if has_key(s0, key) {
                        let j = key_index(s0, key);
                        assert(s1[j].0 == key);
                    }
                    if has_key(s1, key) {
                        let j = key_index(s1, key);
                        assert(s0[j].0 == key);
                    }
                }
                assert forall|key: u64| #[trigger] assoc_view(s1).contains_key(key)
                    implies assoc_view(s1)[key] == assoc_view(s0).insert(k, val)[key] by {
                    let j = key_index(s1, key);
                    lemma_assoc_entry(s1, j);
                    if j != i {
                        lemma_assoc_entry(s0, j);
                    }
                }
                assert(assoc_view(s1) =~= assoc_view(s0).insert(k, val));
                assert(assoc_find_spec(s0, k) == Some(i as int));
            }
        },
        None => {
            v.push((k, val));
            proof {
                let s1 = v@;
                let n = s0.len() as int;
                assert forall|a: int, b: int| 0 <= a < b < s1.len() implies s1[a].0 != s1[b].0 by {
                    if b == n {
                        assert(s0[a].0 != k);
                    } else {
                        assert(s0[a].0 != s0[b].0);
                    }
                }
                assert forall|key: u64| #[trigger] assoc_view(s1).contains_key(key)
                    == assoc_view(s0).insert(k, val).contains_key(key) by {
                    if has_key(s0, key) {
                        let j = key_index(s0, key);
                        assert(s1[j].0 == key);
                    }
                    if key == k {
                        assert(s1[n].0 == key);
                    }
                    if has_key(s1, key) {
                        let j = key_index(s1, key);
                        if j < n {
                            assert(s0[j].0 == key);
                        }
                    }
                }
                assert forall|key: u64| #[trigger] assoc_view(s1).contains_key(key)
                    implies assoc_view(s1)[key] == assoc_view(s0).insert(k, val)[key] by {
                    let j = key_index(s1, key);
                    lemma_assoc_entry(s1, j);
                    if j < n {
                        lemma_assoc_entry(s0, j);
                    }
                }
                assert(assoc_view(s1) =~= assoc_view(s0).insert(k, val));
            }
        },
    }
}

/// The position of key `k` in a list, as `assoc_find` reports it.
pub open spec fn assoc_find_spec<V>(s: Seq<(u64, V)>, k: u64) -> Option<int> {
    if has_key(s, k) {
        Some(key_index(s, k))
    } else {
        None
    }
}

/// Removes key `k`, keeping the order of the other entries.
pub fn assoc_remove<V>(v: &mut Vec<(u64, V)>, k: u64)
    requires
        keys_distinct(old(v)@),
    ensures
        keys_distinct(final(v)@),
        assoc_view(final(v)@) == assoc_view(old(v)@).remove(k),
        match assoc_find_spec(old(v)@, k) {
            Some(i) => final(v)@ == old(v)@.remove(i),
            None => final(v)@ == old(v)@,
        },
{
    let ghost s0 = v@;
    match assoc_find(v, k) {
        Some(i) => {
            proof {
                lemma_assoc_entry(s0, i as int);
            }
            v.remove(i);
            proof {
                let s1 = v@;
                let ii = i as int;
                assert forall|a: int, b: int| 0 <= a < b < s1.len() implies s1[a].0 != s1[b].0 by {
                    let a0 = if a < ii { a } else { a + 1 };
                    let b0 = if b < ii { b } else { b + 1 };
                    assert(s1[a] == s0[a0]);
                    assert(s1[b] == s0[b0]);
                    assert(s0[a0].0 != s0[b0].0);
                }
                assert forall|key: u64| #[trigger] assoc_view(s1).contains_key(key)
                    == assoc_view(s0).remove(k).contains_key(key) by {
                    if has_key(s0, key) && key != k {
                        let j = key_index(s0, key);
                        if j < ii {
                            assert(s1[j].0 == key);
                        } else {
                            assert(j != ii);
                            assert(s1[j - 1].0 == key);
                        }
                    }
                    if has_key(s1, key) {
                        let j = key_index(s1, key);
                        let j0 = if j < ii { j } else { j + 1 };
                        assert(s0[j0].0 == key);
                        assert(j0 != ii ==> s0[j0].0 != s0[ii].0);
                    }
                }
                assert forall|key: u64| #[trigger] assoc_view(s1).contains_key(key)
                    implies assoc_view(s1)[key] == assoc_view(s0).remove(k)[key] by {
                    let j = key_index(s1, key);
                    lemma_assoc_entry(s1, j);
                    let j0 = if j < ii { j } else { j + 1 };
                    assert(s1[j] == s0[j0]);
                    lemma_assoc_entry(s0, j0);
                }
                assert(assoc_view(s1) =~= assoc_view(s0).remove(k));
                assert(assoc_find_spec(s0, k) == Some(ii));
            }
        },
        None => {
            proof {
                assert(assoc_view(s0) =~= assoc_view(s0).remove(k));
            }
        },
    }
}

/// Removes key `k` and hands back its value.
pub fn assoc_take<V>(v: &mut Vec<(u64, V)>, k: u64) -> (r: Option<V>)
    requires
        keys_distinct(old(v)@),
    ensures
        keys_distinct(final(v)@),
        assoc_view(final(v)@) == assoc_view(old(v)@).remove(k),
        match r {
            Some(x) => assoc_view(old(v)@).contains_key(k) && x == assoc_view(old(v)@)[k],
            None => !assoc_view(old(v)@).contains_key(k),
        },
        match assoc_find_spec(old(v)@, k) {
            Some(i) => final(v)@ == old(v)@.remove(i) && r == Some(old(v)@[i].1),
            None => final(v)@ == old(v)@ && r is None,
        },
{
    let ghost s0 = v@;
    match assoc_find(v, k) {
        Some(i) => {
            proof {
                lemma_assoc_entry(s0, i as int);
            }
            let (_, x) = v.remove(i);
            proof {
                let s1 = v@;
                let ii = i as int;
                assert forall|a: int, b: int| 0 <= a < b < s1.len() implies s1[a].0 != s1[b].0 by {
                    let a0 = if a < ii { a } else { a + 1 };
                    let b0 = if b < ii { b } else { b + 1 };
                    assert(s1[a] == s0[a0]);
                    assert(s1[b] == s0[b0]);
                    assert(s0[a0].0 != s0[b0].0);
                }
                assert forall|key: u64| #[trigger] assoc_view(s1).contains_key(key)
                    == assoc_view(s0).remove(k).contains_key(key) by {
                    if has_key(s0, key) && key != k {
                        let j = key_index(s0, key);
                        if j < ii {
                            assert(s1[j].0 == key);
                        } else {
                            assert(j != ii);
                            assert(s1[j - 1].0 == key);
                        }
                    }
                    if has_key(s1, key) {
                        let j = key_index(s1, key);
                        let j0 = if j < ii { j } else { j + 1 };
                        assert(s0[j0].0 == key);
                        assert(j0 != ii ==> s0[j0].0 != s0[ii].0);
                    }
                }
                assert forall|key: u64| #[trigger] assoc_view(s1).contains_key(key)
                    implies assoc_view(s1)[key] == assoc_view(s0).remove(k)[key] by {
                    let j = key_index(s1, key);
                    lemma_assoc_entry(s1, j);
                    let j0 = if j < ii { j } else { j + 1 };
                    assert(s1[j] == s0[j0]);
                    lemma_assoc_entry(s0, j0);
                }
                assert(assoc_view(s1) =~= assoc_view(s0).remove(k));
                assert(assoc_find_spec(s0, k) == Some(ii));
            }
            Some(x)
        },
        None => {
            proof {
                assert(assoc_view(s0) =~= assoc_view(s0).remove(k));
            }
            None
        },
    }
}

/// An empty list stands for the empty map.
pub proof fn lemma_assoc_empty<V>(s: Seq<(u64, V)>)
    requires
        s.len() == 0,
    ensures
        keys_distinct(s),
        assoc_view(s) == Map::<u64, V>::empty(),
{
    assert(assoc_view(s) =~= Map::<u64, V>::empty());
}

} // verus!
