//! Properties of the map that span several operations, stated over the model
//! of `entries` that the operations' contracts use.
use vstd::prelude::*;
use vstd::std_specs::cmp::PartialEqSpec;

use vstd::set_lib::set_int_range;

use crate::entries::{
    distinct_keys, entry_found_in, find_key, insert_entry, is_first_match, key_at_matches,
    key_eq_laws, lemma_find_key_facts, lemma_first_match_found, lemma_injection_is_onto,
    lemma_match_is_found, lemma_no_match_found, lemma_same_keys_same_find, lookup, remove_entry,
    same_entries,
};

verus! {

/// A map reports a key as present exactly when a lookup of it finds a value
/// (`contains_key` agrees with `get`).
pub proof fn law_contains_iff_lookup<K: PartialEq, V>(entries: Seq<(K, V)>, key: K)
    ensures
        (find_key(entries, key) is Some) == (lookup(entries, key) is Some),
{
}

/// An empty map finds no key.
pub proof fn law_lookup_in_empty<K: PartialEq, V>(key: K)
    ensures
        lookup(Seq::<(K, V)>::empty(), key) is None,
{
    lemma_no_match_found(Seq::<(K, V)>::empty(), key);
}

/// After `(key, value)` is inserted, a lookup of `key` finds `value`.
pub proof fn law_lookup_after_insert<K: PartialEq, V>(entries: Seq<(K, V)>, key: K, value: V)
    requires
        key_eq_laws::<K>(),
    ensures
        lookup(insert_entry(entries, key, value), key) == Some(value),
{
    let after = insert_entry(entries, key, value);
    lemma_find_key_facts(entries, key);
    match find_key(entries, key) {
        Some(i) => {
            lemma_same_keys_same_find(entries, after, key);
        },
        None => {
            let n = entries.len() as int;
            assert forall|j: int| 0 <= j < n implies !#[trigger] key_at_matches(after, j, key) by {
                assert(after[j] == entries[j]);
                assert(!key_at_matches(entries, j, key));
            }
            assert(key_at_matches(after, n, key));
            assert(is_first_match(after, key, n));
            lemma_first_match_found(after, key, n);
        },
    }
}

/// Inserting `(key, value)` leaves the lookup of every key that `key` does not
/// equal unchanged.
pub proof fn law_lookup_other_after_insert<K: PartialEq, V>(
    entries: Seq<(K, V)>,
    key: K,
    value: V,
    other: K,
)
    requires
        key_eq_laws::<K>(),
        !other.eq_spec(&key),
    ensures
        lookup(insert_entry(entries, key, value), other) == lookup(entries, other),
{
    let after = insert_entry(entries, key, value);
    lemma_find_key_facts(entries, key);
    lemma_find_key_facts(entries, other);
    match find_key(entries, key) {
        Some(i) => {
            lemma_same_keys_same_find(entries, after, other);
            if let Some(j) = find_key(entries, other) {
                if j == i {
                    assert(entries[i].0.eq_spec(&key));
                    assert(entries[i].0.eq_spec(&other));
                    assert(other.eq_spec(&entries[i].0));
                }
            }
        },
        None => {
            let n = entries.len() as int;
            assert(!key_at_matches(after, n, other)) by {
                assert(after[n].0 == key);
                if key.eq_spec(&other) {
                    assert(other.eq_spec(&key));
                }
            }
            match find_key(entries, other) {
                Some(j) => {
                    assert forall|m: int| 0 <= m < j implies !#[trigger] key_at_matches(
                        after,
                        m,
                        other,
                    ) by {
                        assert(after[m] == entries[m]);
                        assert(!key_at_matches(entries, m, other));
                    }
                    assert(after[j] == entries[j]);
                    assert(is_first_match(after, other, j));
                    lemma_first_match_found(after, other, j);
                },
                None => {
                    assert forall|m: int| 0 <= m < after.len() implies !#[trigger] key_at_matches(
                        after,
                        m,
                        other,
                    ) by {
                        if m < n {
                            assert(after[m] == entries[m]);
                            assert(!key_at_matches(entries, m, other));
                        }
                    }
                    lemma_no_match_found(after, other);
                },
            }
        },
    }
}

/// Inserting a key whose equal is absent grows the map by one entry; inserting
/// a present key keeps its size.
pub proof fn law_insert_len<K: PartialEq, V>(entries: Seq<(K, V)>, key: K, value: V)
    ensures
        insert_entry(entries, key, value).len() == entries.len() + if find_key(
            entries,
            key,
        ) is Some {
            0int
        } else {
            1int
        },
{
}

/// Removing a present key shrinks the map by one entry; removing an absent
/// key changes nothing.
pub proof fn law_remove_len<K: PartialEq, V>(entries: Seq<(K, V)>, key: K)
    ensures
        remove_entry(entries, key).len() == entries.len() - if find_key(entries, key) is Some {
            1int
        } else {
            0int
        },
        find_key(entries, key) is None ==> remove_entry(entries, key) == entries,
{
    lemma_find_key_facts(entries, key);
}

/// In a map with distinct keys, a removed key is no longer found.
pub proof fn law_lookup_after_remove<K: PartialEq, V>(entries: Seq<(K, V)>, key: K)
    requires
        key_eq_laws::<K>(),
        distinct_keys(entries),
    ensures
        lookup(remove_entry(entries, key), key) is None,
{
    let after = remove_entry(entries, key);
    lemma_find_key_facts(entries, key);
    match find_key(entries, key) {
        Some(i) => {
            let last = entries.len() - 1;
            assert forall|j: int| 0 <= j < after.len() implies !#[trigger] key_at_matches(
                after,
                j,
                key,
            ) by {
                if key_at_matches(after, j, key) {
                    if j == i {
                        assert(after[j] == entries[last]);
                        assert(entries[last].0.eq_spec(&key));
                        assert(key.eq_spec(&entries[i].0));
                        assert(entries[last].0.eq_spec(&entries[i].0));
                    } else {
                        assert(after[j] == entries[j]);
                        assert(entries[j].0.eq_spec(&key));
                        assert(key.eq_spec(&entries[i].0));
                        assert(entries[j].0.eq_spec(&entries[i].0));
                    }
                }
            }
            lemma_no_match_found(after, key);
        },
        None => {},
    }
}

/// In a map with distinct keys, removing `key` leaves the lookup of every key
/// that `key` does not equal unchanged.
pub proof fn law_lookup_other_after_remove<K: PartialEq, V>(entries: Seq<(K, V)>, key: K, other: K)
    requires
        key_eq_laws::<K>(),
        distinct_keys(entries),
        !other.eq_spec(&key),
    ensures
        lookup(remove_entry(entries, key), other) == lookup(entries, other),
{
    let after = remove_entry(entries, key);
    lemma_find_key_facts(entries, key);
    lemma_find_key_facts(entries, other);
    law_distinct_after_remove(entries, key);
    match find_key(entries, key) {
        Some(i) => {
            let last = entries.len() - 1;
            match find_key(entries, other) {
                Some(j) => {
                    if j == i {
                        assert(entries[i].0.eq_spec(&key));
                        assert(entries[i].0.eq_spec(&other));
                        assert(other.eq_spec(&entries[i].0));
                        assert(false);
                    }
                    let p = if j == last {
                        i
                    } else {
                        j
                    };
                    assert(after[p] == entries[j]);
                    assert(key_at_matches(after, p, other));
                    lemma_match_is_found(after, other, p);
                },
                None => {
                    assert forall|m: int| 0 <= m < after.len() implies !#[trigger] key_at_matches(
                        after,
                        m,
                        other,
                    ) by {
                        if m == i {
                            assert(after[m] == entries[last]);
                            assert(!key_at_matches(entries, last, other));
                        } else {
                            assert(after[m] == entries[m]);
                            assert(!key_at_matches(entries, m, other));
                        }
                    }
                    lemma_no_match_found(after, other);
                },
            }
        },
        None => {},
    }
}

/// Inserting keeps the keys of a map distinct.
pub proof fn law_distinct_after_insert<K: PartialEq, V>(entries: Seq<(K, V)>, key: K, value: V)
    requires
        key_eq_laws::<K>(),
        distinct_keys(entries),
    ensures
        distinct_keys(insert_entry(entries, key, value)),
{
    let after = insert_entry(entries, key, value);
    lemma_find_key_facts(entries, key);
    match find_key(entries, key) {
        Some(i) => {
            assert forall|a: int, b: int|
                0 <= a < after.len() && 0 <= b < after.len() && a != b implies !#[trigger] after[a].0.eq_spec(
                &#[trigger] after[b].0,
            ) by {
                assert(after[a].0 == entries[a].0);
                assert(after[b].0 == entries[b].0);
            }
        },
        None => {
            let n = entries.len() as int;
            assert forall|a: int, b: int|
                0 <= a < after.len() && 0 <= b < after.len() && a != b implies !#[trigger] after[a].0.eq_spec(
                &#[trigger] after[b].0,
            ) by {
                if a == n {
                    assert(!key_at_matches(entries, b, key));
                    assert(after[b] == entries[b]);
                    if key.eq_spec(&entries[b].0) {
                        assert(entries[b].0.eq_spec(&key));
                    }
                } else if b == n {
                    assert(!key_at_matches(entries, a, key));
                    assert(after[a] == entries[a]);
                } else {
                    assert(after[a] == entries[a]);
                    assert(after[b] == entries[b]);
                }
            }
        },
    }
}

/// Removing keeps the keys of a map distinct.
pub proof fn law_distinct_after_remove<K: PartialEq, V>(entries: Seq<(K, V)>, key: K)
    requires
        distinct_keys(entries),
    ensures
        distinct_keys(remove_entry(entries, key)),
{
    let after = remove_entry(entries, key);
    match find_key(entries, key) {
        Some(i) => {
            let last = entries.len() - 1;
            let from = |m: int|
                if m == i {
                    last
                } else {
                    m
                };
            assert forall|a: int, b: int|
                0 <= a < after.len() && 0 <= b < after.len() && a != b implies !#[trigger] after[a].0.eq_spec(
                &#[trigger] after[b].0,
            ) by {
                assert(after[a] == entries[from(a)]);
                assert(after[b] == entries[from(b)]);
            }
        },
        None => {},
    }
}

/// Removing a key that was absent before it was inserted gives back the map as
/// it was before the insertion.
pub proof fn law_remove_undoes_fresh_insert<K: PartialEq, V>(entries: Seq<(K, V)>, key: K, value: V)
    requires
        key_eq_laws::<K>(),
        find_key(entries, key) is None,
    ensures
        remove_entry(insert_entry(entries, key, value), key) == entries,
{
    let after = insert_entry(entries, key, value);
    law_lookup_after_insert(entries, key, value);
    lemma_find_key_facts(entries, key);
    lemma_find_key_facts(after, key);
    let n = entries.len() as int;
    let i = find_key(after, key)->0;
    if i < n {
        assert(after[i] == entries[i]);
        assert(!key_at_matches(entries, i, key));
    }
    assert(i == n);
    assert(remove_entry(after, key) =~= entries);
}

/// Of two insertions of the same key, the later value is the one that stays.
pub proof fn law_later_insert_wins<K: PartialEq, V>(entries: Seq<(K, V)>, key: K, first: V, second: V)
    requires
        key_eq_laws::<K>(),
    ensures
        insert_entry(insert_entry(entries, key, first), key, second) == insert_entry(
            entries,
            key,
            second,
        ),
{
    let once = insert_entry(entries, key, first);
    law_lookup_after_insert(entries, key, first);
    lemma_find_key_facts(entries, key);
    lemma_find_key_facts(once, key);
    match find_key(entries, key) {
        Some(i) => {
            lemma_same_keys_same_find(entries, once, key);
            assert(insert_entry(once, key, second) =~= insert_entry(entries, key, second));
        },
        None => {
            let n = entries.len() as int;
            let i = find_key(once, key)->0;
            if i < n {
                assert(once[i] == entries[i]);
                assert(!key_at_matches(entries, i, key));
            }
            assert(insert_entry(once, key, second) =~= insert_entry(entries, key, second));
        },
    }
}

/// Two maps with distinct keys that answer every lookup with the same value
/// compare equal, whatever the order of their entries.
pub proof fn law_equal_when_lookups_agree<K: PartialEq, V: PartialEq>(
    a: Seq<(K, V)>,
    b: Seq<(K, V)>,
)
    requires
        key_eq_laws::<K>(),
        forall|v: V| #[trigger] v.eq_spec(&v),
        distinct_keys(a),
        distinct_keys(b),
        a.len() == b.len(),
        forall|k: K| #[trigger] lookup(a, k) == lookup(b, k),
    ensures
        same_entries(a, b),
{
    assert forall|i: int| 0 <= i < a.len() implies #[trigger] entry_found_in(a[i], b) by {
        let k = a[i].0;
        lemma_match_is_found(a, k, i);
        assert(lookup(a, k) == lookup(b, k));
        lemma_find_key_facts(b, k);
    }
}

/// A map with distinct keys equals itself.
pub proof fn law_equal_reflexive<K: PartialEq, V: PartialEq>(a: Seq<(K, V)>)
    requires
        key_eq_laws::<K>(),
        forall|v: V| #[trigger] v.eq_spec(&v),
        distinct_keys(a),
    ensures
        same_entries(a, a),
{
    law_equal_when_lookups_agree(a, a);
}

/// Equality of maps with distinct keys is symmetric.
pub proof fn law_equal_symmetric<K: PartialEq, V: PartialEq>(a: Seq<(K, V)>, b: Seq<(K, V)>)
    requires
        key_eq_laws::<K>(),
        forall|v: V, w: V| #[trigger] v.eq_spec(&w) ==> w.eq_spec(&v),
        distinct_keys(a),
        distinct_keys(b),
        same_entries(a, b),
    ensures
        same_entries(b, a),
{
    let n = a.len() as int;
    let f = |i: int| find_key(b, a[i].0)->0;
    assert forall|i: int| 0 <= i < n implies {
        &&& find_key(b, a[i].0) == Some(#[trigger] f(i))
        &&& 0 <= f(i) < n
        &&& b[f(i)].0.eq_spec(&a[i].0)
        &&& a[i].1.eq_spec(&b[f(i)].1)
    } by {
        assert(entry_found_in(a[i], b));
        lemma_find_key_facts(b, a[i].0);
    }
    assert forall|i: int, k: int|
        0 <= i < n && 0 <= k < n && #[trigger] f(i) == #[trigger] f(k) implies i == k by {
        let j = f(i);
        assert(b[j].0.eq_spec(&a[i].0));
        assert(b[j].0.eq_spec(&a[k].0));
        assert(a[i].0.eq_spec(&b[j].0));
        assert(a[i].0.eq_spec(&a[k].0));
    }
    lemma_injection_is_onto(n, f);
    assert forall|j: int| 0 <= j < n implies #[trigger] entry_found_in(b[j], a) by {
        assert(set_int_range(0, n).contains(j));
        assert(set_int_range(0, n).map(f).contains(j));
        let i = choose|i: int| set_int_range(0, n).contains(i) && j == f(i);
        assert(b[j].0.eq_spec(&a[i].0));
        assert(a[i].0.eq_spec(&b[j].0));
        lemma_match_is_found(a, b[j].0, i);
        assert(a[i].1.eq_spec(&b[j].1));
    }
}

/// Equality of maps is transitive where the last map has distinct keys.
pub proof fn law_equal_transitive<K: PartialEq, V: PartialEq>(
    a: Seq<(K, V)>,
    b: Seq<(K, V)>,
    c: Seq<(K, V)>,
)
    requires
        key_eq_laws::<K>(),
        forall|u: V, v: V, w: V| #[trigger] u.eq_spec(&v) && #[trigger] v.eq_spec(&w) ==> u.eq_spec(&w),
        distinct_keys(c),
        same_entries(a, b),
        same_entries(b, c),
    ensures
        same_entries(a, c),
{
    assert forall|i: int| 0 <= i < a.len() implies #[trigger] entry_found_in(a[i], c) by {
        assert(entry_found_in(a[i], b));
        lemma_find_key_facts(b, a[i].0);
        let j = find_key(b, a[i].0)->0;
        assert(entry_found_in(b[j], c));
        lemma_find_key_facts(c, b[j].0);
        let m = find_key(c, b[j].0)->0;
        assert(c[m].0.eq_spec(&b[j].0));
        assert(b[j].0.eq_spec(&a[i].0));
        assert(c[m].0.eq_spec(&a[i].0));
        lemma_match_is_found(c, a[i].0, m);
        assert(a[i].1.eq_spec(&b[j].1));
        assert(b[j].1.eq_spec(&c[m].1));
    }
}

/// Two equal maps with distinct keys answer every lookup alike: both find the
/// key, with equal values, or neither does.
pub proof fn law_equal_maps_agree_on_lookups<K: PartialEq, V: PartialEq>(
    a: Seq<(K, V)>,
    b: Seq<(K, V)>,
    key: K,
)
    requires
        key_eq_laws::<K>(),
        forall|v: V, w: V| #[trigger] v.eq_spec(&w) ==> w.eq_spec(&v),
        distinct_keys(a),
        distinct_keys(b),
        same_entries(a, b),
    ensures
        match (lookup(a, key), lookup(b, key)) {
            (Some(x), Some(y)) => x.eq_spec(&y),
            (None, None) => true,
            _ => false,
        },
{
    law_equal_symmetric(a, b);
    lemma_find_key_facts(a, key);
    lemma_find_key_facts(b, key);
    match find_key(a, key) {
        Some(i) => {
            assert(entry_found_in(a[i], b));
            lemma_find_key_facts(b, a[i].0);
            let j = find_key(b, a[i].0)->0;
            assert(b[j].0.eq_spec(&a[i].0));
            assert(a[i].0.eq_spec(&key));
            assert(b[j].0.eq_spec(&key));
            lemma_match_is_found(b, key, j);
        },
        None => {
            if let Some(j) = find_key(b, key) {
                assert(entry_found_in(b[j], a));
                lemma_find_key_facts(a, b[j].0);
                let i = find_key(a, b[j].0)->0;
                assert(a[i].0.eq_spec(&b[j].0));
                assert(b[j].0.eq_spec(&key));
                assert(a[i].0.eq_spec(&key));
                assert(key_at_matches(a, i, key));
            }
        },
    }
}

} // verus!
