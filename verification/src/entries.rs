//! The mathematical model of a linear map: the sequence of its `(key, value)`
//! entries in storage order, and key lookup by the first entry whose key
//! compares equal.
use vstd::prelude::*;
use vstd::relations::injective_on;
use vstd::set_lib::{lemma_int_range, lemma_map_size, lemma_subset_equality, set_int_range};
use vstd::std_specs::cmp::PartialEqSpec;

verus! {

/// `eq_spec` on `T` is an equivalence relation.
pub open spec fn eq_is_equivalence<T: PartialEq>() -> bool {
    &&& forall|a: T| #[trigger] a.eq_spec(&a)
    &&& forall|a: T, b: T| #[trigger] a.eq_spec(&b) ==> b.eq_spec(&a)
    &&& forall|a: T, b: T, c: T| #[trigger] a.eq_spec(&b) && #[trigger] b.eq_spec(&c) ==> a.eq_spec(&c)
}

/// `==` on `K` is computed by `eq_spec`, and `eq_spec` is an equivalence
/// relation: what the `Eq` trait asks of every implementation.
pub open spec fn key_eq_laws<K: PartialEq>() -> bool {
    &&& K::obeys_eq_spec()
    &&& eq_is_equivalence::<K>()
}

/// The key of entry `i` compares equal to `key` (the entry's key on the left).
pub open spec fn key_at_matches<K: PartialEq, V>(entries: Seq<(K, V)>, i: int, key: K) -> bool {
    entries[i].0.eq_spec(&key)
}

/// Entry `i` is the first entry whose key compares equal to `key`.
pub open spec fn is_first_match<K: PartialEq, V>(entries: Seq<(K, V)>, key: K, i: int) -> bool {
    &&& 0 <= i < entries.len()
    &&& key_at_matches(entries, i, key)
    &&& forall|j: int| 0 <= j < i ==> !#[trigger] key_at_matches(entries, j, key)
}

/// The position of the first entry whose key compares equal to `key`, if any.
pub open spec fn find_key<K: PartialEq, V>(entries: Seq<(K, V)>, key: K) -> Option<int> {
    if exists|i: int| is_first_match(entries, key, i) {
        Some(choose|i: int| is_first_match(entries, key, i))
    } else {
        None
    }
}

/// The value that a lookup of `key` finds, if any.
pub open spec fn lookup<K: PartialEq, V>(entries: Seq<(K, V)>, key: K) -> Option<V> {
    match find_key(entries, key) {
        Some(i) => Some(entries[i].1),
        None => None,
    }
}

/// The entries after inserting `(key, value)`: the value of the first entry
/// whose key equals `key` is replaced (its key stays), or else the pair is
/// appended.
pub open spec fn insert_entry<K: PartialEq, V>(entries: Seq<(K, V)>, key: K, value: V) -> Seq<(K, V)> {
    match find_key(entries, key) {
        Some(i) => entries.update(i, (entries[i].0, value)),
        None => entries.push((key, value)),
    }
}

/// The entries after removing `key`: the last entry takes the place of the
/// first entry whose key equals `key`; nothing changes when no key equals it.
pub open spec fn remove_entry<K: PartialEq, V>(entries: Seq<(K, V)>, key: K) -> Seq<(K, V)> {
    match find_key(entries, key) {
        Some(i) => entries.update(i, entries.last()).drop_last(),
        None => entries,
    }
}

/// No two entries have keys that compare equal.
pub open spec fn distinct_keys<K: PartialEq, V>(entries: Seq<(K, V)>) -> bool {
    forall|i: int, j: int|
        0 <= i < entries.len() && 0 <= j < entries.len() && i != j ==> !#[trigger] entries[i].0.eq_spec(
            &#[trigger] entries[j].0,
        )
}

/// The key of `entry` is found in `other`, with a value that `entry`'s value equals.
pub open spec fn entry_found_in<K: PartialEq, V: PartialEq>(entry: (K, V), other: Seq<(K, V)>) -> bool {
    match find_key(other, entry.0) {
        Some(j) => entry.1.eq_spec(&other[j].1),
        None => false,
    }
}

/// What `==` on two maps computes: as many entries on both sides, and each
/// entry of `a` found in `b` with an equal value.
pub open spec fn same_entries<K: PartialEq, V: PartialEq>(a: Seq<(K, V)>, b: Seq<(K, V)>) -> bool {
    &&& a.len() == b.len()
    &&& forall|i: int| 0 <= i < a.len() ==> #[trigger] entry_found_in(a[i], b)
}

/// A first match is the one that `find_key` reports.
pub proof fn lemma_first_match_found<K: PartialEq, V>(entries: Seq<(K, V)>, key: K, i: int)
    requires
        is_first_match(entries, key, i),
    ensures
        find_key(entries, key) == Some(i),
{
    let c = choose|c: int| is_first_match(entries, key, c);
    assert(is_first_match(entries, key, c));
    if c < i {
        assert(key_at_matches(entries, c, key));
    } else if i < c {
        assert(key_at_matches(entries, i, key));
    }
}

/// When no key compares equal, `find_key` reports nothing.
pub proof fn lemma_no_match_found<K: PartialEq, V>(entries: Seq<(K, V)>, key: K)
    requires
        forall|j: int| 0 <= j < entries.len() ==> !#[trigger] key_at_matches(entries, j, key),
    ensures
        find_key(entries, key) is None,
{
    if exists|i: int| is_first_match(entries, key, i) {
        let c = choose|i: int| is_first_match(entries, key, i);
        assert(key_at_matches(entries, c, key));
    }
}

/// Whenever some entry matches, a first match exists at or before it.
pub proof fn lemma_some_match_found<K: PartialEq, V>(entries: Seq<(K, V)>, key: K, i: int)
    requires
        0 <= i < entries.len(),
        key_at_matches(entries, i, key),
    ensures
        find_key(entries, key) matches Some(f) && f <= i,
    decreases i,
{
    if exists|j: int| 0 <= j < i && #[trigger] key_at_matches(entries, j, key) {
        let j = choose|j: int| 0 <= j < i && #[trigger] key_at_matches(entries, j, key);
        lemma_some_match_found(entries, key, j);
    } else {
        lemma_first_match_found(entries, key, i);
    }
}

/// What `find_key` reports: a first match, or no match anywhere.
pub proof fn lemma_find_key_facts<K: PartialEq, V>(entries: Seq<(K, V)>, key: K)
    ensures
        match find_key(entries, key) {
            Some(i) => is_first_match(entries, key, i),
            None => forall|j: int| 0 <= j < entries.len() ==> !#[trigger] key_at_matches(entries, j, key),
        },
{
    if find_key(entries, key) is None {
        assert forall|j: int| 0 <= j < entries.len() implies !#[trigger] key_at_matches(
            entries,
            j,
            key,
        ) by {
            if key_at_matches(entries, j, key) {
                lemma_some_match_found(entries, key, j);
            }
        }
    }
}

/// Two entry sequences with the same keys in the same places find every key
/// in the same place.
pub proof fn lemma_same_keys_same_find<K: PartialEq, V>(a: Seq<(K, V)>, b: Seq<(K, V)>, key: K)
    requires
        a.len() == b.len(),
        forall|i: int| 0 <= i < a.len() ==> #[trigger] a[i].0 == b[i].0,
    ensures
        find_key(a, key) == find_key(b, key),
{
    lemma_find_key_facts(a, key);
    lemma_find_key_facts(b, key);
    assert forall|j: int|
        #![trigger key_at_matches(a, j, key)]
        #![trigger key_at_matches(b, j, key)]
        0 <= j < a.len() implies key_at_matches(a, j, key) == key_at_matches(
        b,
        j,
        key,
    ) by {
        assert(a[j].0 == b[j].0);
    }
    match find_key(a, key) {
        Some(i) => {
            assert(is_first_match(b, key, i));
            lemma_first_match_found(b, key, i);
        },
        None => {
            lemma_no_match_found(b, key);
        },
    }
}

/// A map of the positions below `n` into themselves that never sends two
/// positions to one reaches every position below `n`.
pub proof fn lemma_injection_is_onto(n: int, f: spec_fn(int) -> int)
    requires
        0 <= n,
        forall|i: int| 0 <= i < n ==> 0 <= #[trigger] f(i) < n,
        forall|i: int, k: int| 0 <= i < n && 0 <= k < n && #[trigger] f(i) == #[trigger] f(k) ==> i == k,
    ensures
        set_int_range(0, n).map(f) == set_int_range(0, n),
{
    let dom = set_int_range(0, n);
    lemma_int_range(0, n);
    let image = dom.map(f);
    assert(injective_on(f, dom));
    lemma_map_size(dom, image, f);
    assert forall|j: int| image.contains(j) implies dom.contains(j) by {
        let i = choose|i: int| dom.contains(i) && j == f(i);
    }
    lemma_subset_equality(image, dom);
}

/// With distinct keys and lawful equality, every matching entry is the one found.
pub proof fn lemma_match_is_found<K: PartialEq, V>(entries: Seq<(K, V)>, key: K, i: int)
    requires
        key_eq_laws::<K>(),
        distinct_keys(entries),
        0 <= i < entries.len(),
        key_at_matches(entries, i, key),
    ensures
        find_key(entries, key) == Some(i),
{
    assert forall|j: int| 0 <= j < i implies !#[trigger] key_at_matches(entries, j, key) by {
        if key_at_matches(entries, j, key) {
            assert(entries[i].0.eq_spec(&key));
            assert(key.eq_spec(&entries[i].0));
            assert(entries[j].0.eq_spec(&entries[i].0));
        }
    }
    lemma_first_match_found(entries, key, i);
}

} // verus!
