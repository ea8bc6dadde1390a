use std::sync::atomic::{AtomicI32, Ordering};

use lib::linear_map::LinearMap;

static DROPPABLE_COUNT: AtomicI32 = AtomicI32::new(0);

struct Droppable;

impl Droppable {
    fn new() -> Self {
        DROPPABLE_COUNT.fetch_add(1, Ordering::SeqCst);
        Droppable
    }

    fn count() -> i32 {
        DROPPABLE_COUNT.load(Ordering::SeqCst)
    }
}

impl Drop for Droppable {
    fn drop(&mut self) {
        DROPPABLE_COUNT.fetch_sub(1, Ordering::SeqCst);
    }
}

#[test]
fn static_new() {
    let _l: LinearMap<i32, i32, 8> = LinearMap::new();
}

#[test]
fn partial_eq() {
    {
        let mut a = LinearMap::<_, _, 1>::new();
        a.insert("k1", "v1").unwrap();

        let mut b = LinearMap::<_, _, 2>::new();
        b.insert("k1", "v1").unwrap();

        assert!(a == b);

        b.insert("k2", "v2").unwrap();

        assert!(a != b);
    }

    {
        let mut a = LinearMap::<_, _, 2>::new();
        a.insert("k1", "v1").unwrap();
        a.insert("k2", "v2").unwrap();

        let mut b = LinearMap::<_, _, 2>::new();
        b.insert("k2", "v2").unwrap();
        b.insert("k1", "v1").unwrap();

        assert!(a == b);
    }
}

#[test]
fn drop() {
    {
        let mut v: LinearMap<i32, Droppable, 2> = LinearMap::new();
        v.insert(0, Droppable::new()).ok().unwrap();
        v.insert(1, Droppable::new()).ok().unwrap();
        v.remove(&1).unwrap();
    }

    assert_eq!(Droppable::count(), 0);

    {
        let mut v: LinearMap<i32, Droppable, 2> = LinearMap::new();
        v.insert(0, Droppable::new()).ok().unwrap();
        v.insert(1, Droppable::new()).ok().unwrap();
    }

    assert_eq!(Droppable::count(), 0);
}

#[test]
fn into_iter() {
    let mut src: LinearMap<_, _, 4> = LinearMap::new();
    src.insert("k1", "v1").unwrap();
    src.insert("k2", "v2").unwrap();
    src.insert("k3", "v3").unwrap();
    src.insert("k4", "v4").unwrap();
    let clone = src.clone();
    let mut entries = clone.into_iter();
    while let Some((k, v)) = entries.next() {
        assert_eq!(v, src.remove(&k).unwrap());
    }
}

fn keys_in_order<K: Copy, V, const N: usize>(map: &LinearMap<K, V, N>) -> Vec<K> {
    map.keys().into_iter().copied().collect()
}

#[test]
fn capacity_is_n() {
    let map: LinearMap<&str, isize, 8> = LinearMap::new();
    assert_eq!(map.capacity(), 8);
    assert_eq!(map.len(), 0);
    assert!(map.is_empty());
}

#[test]
fn clear_empties_the_map() {
    let mut map: LinearMap<_, _, 8> = LinearMap::new();
    map.insert(1, "a").unwrap();
    map.clear();
    assert!(map.is_empty());
    assert_eq!(map.capacity(), 8);
    assert_eq!(map.get(&1), None);
}

#[test]
fn contains_key_and_get() {
    let mut map: LinearMap<_, _, 8> = LinearMap::new();
    map.insert(1, "a").unwrap();
    assert_eq!(map.contains_key(&1), true);
    assert_eq!(map.contains_key(&2), false);
    assert_eq!(map.get(&1), Some(&"a"));
    assert_eq!(map.get(&2), None);
}

#[test]
fn get_mut_writes_through() {
    let mut map: LinearMap<_, _, 8> = LinearMap::new();
    map.insert(1, "a").unwrap();
    if let Some(x) = map.get_mut(&1) {
        *x = "b";
    }
    assert_eq!(*map.index(&1), "b");
    assert!(map.get_mut(&2).is_none());
}

#[test]
fn index_mut_writes_through() {
    let mut map: LinearMap<_, _, 8> = LinearMap::new();
    map.insert(7, 70).unwrap();
    *map.index_mut(&7) += 1;
    assert_eq!(*map.index(&7), 71);
}

#[test]
fn len_counts_entries() {
    let mut a: LinearMap<_, _, 8> = LinearMap::new();
    assert_eq!(a.len(), 0);
    a.insert(1, "a").unwrap();
    assert_eq!(a.len(), 1);
    a.insert(1, "b").unwrap();
    assert_eq!(a.len(), 1);
}

#[test]
fn insert_returns_old_value() {
    let mut map: LinearMap<_, _, 8> = LinearMap::new();
    assert_eq!(map.insert(37, "a").unwrap(), None);
    assert_eq!(map.is_empty(), false);

    map.insert(37, "b").unwrap();
    assert_eq!(map.insert(37, "c").unwrap(), Some("b"));
    assert_eq!(*map.index(&37), "c");
}

#[test]
fn insert_into_full_map_hands_the_pair_back() {
    let mut a: LinearMap<_, _, 4> = LinearMap::new();
    assert!(!a.is_full());
    a.insert(1, "a").unwrap();
    a.insert(2, "b").unwrap();
    a.insert(3, "c").unwrap();
    a.insert(4, "d").unwrap();
    assert!(a.is_full());
    assert_eq!(a.insert(5, "e"), Err((5, "e")));
    assert_eq!(a.insert(2, "z"), Ok(Some("b")));
    assert_eq!(a.len(), 4);
    assert_eq!(keys_in_order(&a), vec![1, 2, 3, 4]);
}

#[test]
fn zero_capacity_map_refuses_every_insert() {
    let mut a: LinearMap<u8, u8, 0> = LinearMap::new();
    assert!(a.is_full());
    assert!(a.is_empty());
    assert_eq!(a.insert(1, 1), Err((1, 1)));
}

#[test]
fn iter_visits_in_insertion_order() {
    let mut map: LinearMap<_, _, 8> = LinearMap::new();
    map.insert("a", 1).unwrap();
    map.insert("b", 2).unwrap();
    map.insert("c", 3).unwrap();

    let mut seen = Vec::new();
    let mut it = map.iter();
    while let Some((k, v)) = it.next() {
        seen.push((*k, *v));
    }
    assert_eq!(seen, vec![("a", 1), ("b", 2), ("c", 3)]);
    assert!(it.next().is_none());
}

#[test]
fn iter_mut_updates_all_values() {
    let mut map: LinearMap<_, _, 8> = LinearMap::new();
    map.insert("a", 1).unwrap();
    map.insert("b", 2).unwrap();
    map.insert("c", 3).unwrap();

    let mut it = map.iter_mut();
    while let Some((_, val)) = it.next() {
        *val = 2;
    }
    let values: Vec<i32> = map.values().into_iter().copied().collect();
    assert_eq!(values, vec![2, 2, 2]);
}

#[test]
fn values_mut_adds_to_each_value() {
    let mut map: LinearMap<_, _, 8> = LinearMap::new();
    map.insert("a", 1).unwrap();
    map.insert("b", 2).unwrap();
    map.insert("c", 3).unwrap();

    let mut it = map.values_mut();
    while let Some(val) = it.next() {
        *val += 10;
    }
    let values: Vec<i32> = map.values().into_iter().copied().collect();
    assert_eq!(values, vec![11, 12, 13]);
}

#[test]
fn keys_and_values_in_order() {
    let mut map: LinearMap<_, _, 8> = LinearMap::new();
    map.insert("a", 1).unwrap();
    map.insert("b", 2).unwrap();
    map.insert("c", 3).unwrap();
    assert_eq!(keys_in_order(&map), vec!["a", "b", "c"]);
    let values: Vec<i32> = map.values().into_iter().copied().collect();
    assert_eq!(values, vec![1, 2, 3]);
}

#[test]
fn remove_returns_the_value_once() {
    let mut map: LinearMap<_, _, 8> = LinearMap::new();
    map.insert(1, "a").unwrap();
    assert_eq!(map.remove(&1), Some("a"));
    assert_eq!(map.remove(&1), None);
}

#[test]
fn remove_moves_the_last_entry_into_the_hole() {
    let mut map: LinearMap<_, _, 8> = LinearMap::new();
    map.insert(1, 10).unwrap();
    map.insert(2, 20).unwrap();
    map.insert(3, 30).unwrap();
    map.insert(4, 40).unwrap();
    assert_eq!(map.remove(&2), Some(20));
    assert_eq!(keys_in_order(&map), vec![1, 4, 3]);
    assert_eq!(map.get(&4), Some(&40));
    assert_eq!(map.get(&2), None);
}

#[test]
fn removing_a_fresh_insert_restores_the_map() {
    let mut map: LinearMap<_, _, 8> = LinearMap::new();
    map.insert(1, 10).unwrap();
    map.insert(2, 20).unwrap();
    let before = map.clone();
    map.insert(3, 30).unwrap();
    assert_eq!(map.remove(&3), Some(30));
    assert!(map == before);
    assert_eq!(keys_in_order(&map), vec![1, 2]);
}

#[test]
fn maps_with_different_values_differ() {
    let mut a: LinearMap<_, _, 2> = LinearMap::new();
    a.insert(1, 1).unwrap();
    let mut b: LinearMap<_, _, 2> = LinearMap::new();
    b.insert(1, 2).unwrap();
    assert!(a != b);
    let mut c: LinearMap<_, _, 2> = LinearMap::new();
    c.insert(2, 1).unwrap();
    assert!(a != c);
}

#[test]
fn default_is_empty() {
    let map: LinearMap<u32, u32, 3> = Default::default();
    assert!(map.is_empty());
    assert_eq!(map.capacity(), 3);
}

#[test]
fn from_iter_keeps_entries_in_order() {
    let map: LinearMap<u32, u32, 3> = LinearMap::from_iter(vec![(1, 10), (2, 20)]);
    assert_eq!(keys_in_order(&map), vec![1, 2]);
    assert_eq!(map.get(&2), Some(&20));
    assert_eq!(map.capacity(), 3);
}

#[test]
fn from_iter_keeps_the_first_of_equal_keys_for_lookups() {
    let map: LinearMap<u32, u32, 3> = LinearMap::from_iter(vec![(1, 10), (1, 11)]);
    assert_eq!(map.len(), 2);
    assert_eq!(map.get(&1), Some(&10));
}

#[test]
fn clone_is_equal() {
    let mut map: LinearMap<_, _, 3> = LinearMap::new();
    map.insert(5, "five").unwrap();
    let copy = map.clone();
    assert!(copy == map);
    assert_eq!(copy.capacity(), 3);
}

#[test]
fn into_iter_yields_in_storage_order() {
    let mut map: LinearMap<_, _, 3> = LinearMap::new();
    map.insert(3, 'c').unwrap();
    map.insert(1, 'a').unwrap();
    let mut it = map.into_iter();
    assert_eq!(it.next(), Some((3, 'c')));
    assert_eq!(it.next(), Some((1, 'a')));
    assert_eq!(it.next(), None);
}

#[test]
fn later_insert_wins() {
    let mut map: LinearMap<_, _, 2> = LinearMap::new();
    assert_eq!(map.insert("k", 1), Ok(None));
    assert_eq!(map.insert("k", 2), Ok(Some(1)));
    assert_eq!(map.get(&"k"), Some(&2));
    assert_eq!(map.len(), 1);
}

#[test]
fn insert_leaves_other_keys_alone() {
    let mut map: LinearMap<_, _, 4> = LinearMap::new();
    map.insert(1, "one").unwrap();
    map.insert(2, "two").unwrap();
    map.insert(1, "uno").unwrap();
    assert_eq!(map.get(&2), Some(&"two"));
    assert_eq!(map.get(&3), None);
    map.insert(3, "three").unwrap();
    assert_eq!(map.get(&1), Some(&"uno"));
    assert_eq!(map.get(&2), Some(&"two"));
}

#[test]
fn remove_leaves_other_keys_alone() {
    let mut map: LinearMap<_, _, 4> = LinearMap::new();
    map.insert(1, 'a').unwrap();
    map.insert(2, 'b').unwrap();
    map.insert(3, 'c').unwrap();
    assert_eq!(map.remove(&1), Some('a'));
    assert_eq!(map.get(&1), None);
    assert_eq!(map.get(&2), Some(&'b'));
    assert_eq!(map.get(&3), Some(&'c'));
    assert_eq!(map.remove(&9), None);
    assert_eq!(map.len(), 2);
}

#[test]
fn contains_key_agrees_with_get() {
    let mut map: LinearMap<_, _, 4> = LinearMap::new();
    map.insert(10, ()).unwrap();
    for k in 0..20 {
        assert_eq!(map.contains_key(&k), map.get(&k).is_some());
    }
}

#[test]
fn equality_is_reflexive_symmetric_and_transitive() {
    let mut a: LinearMap<_, _, 3> = LinearMap::new();
    a.insert(1, 10).unwrap();
    a.insert(2, 20).unwrap();
    a.insert(3, 30).unwrap();
    let mut b: LinearMap<_, _, 3> = LinearMap::new();
    b.insert(3, 30).unwrap();
    b.insert(1, 10).unwrap();
    b.insert(2, 20).unwrap();
    let mut c: LinearMap<_, _, 5> = LinearMap::new();
    c.insert(2, 20).unwrap();
    c.insert(3, 30).unwrap();
    c.insert(1, 10).unwrap();
    assert!(a == a);
    assert!(a == b);
    assert!(b == a);
    assert!(b == c);
    assert!(a == c);
}

#[test]
fn equal_maps_answer_lookups_alike() {
    let mut a: LinearMap<_, _, 3> = LinearMap::new();
    a.insert("x", 1).unwrap();
    a.insert("y", 2).unwrap();
    let mut b: LinearMap<_, _, 3> = LinearMap::new();
    b.insert("y", 2).unwrap();
    b.insert("x", 1).unwrap();
    assert!(a == b);
    for k in ["x", "y", "z"] {
        assert_eq!(a.get(&k), b.get(&k));
    }
}

#[test]
fn empty_map_finds_nothing() {
    let map: LinearMap<u8, u8, 4> = LinearMap::new();
    for k in 0..=255u8 {
        assert_eq!(map.get(&k), None);
        assert!(!map.contains_key(&k));
    }
}

#[test]
fn iter_after_removal_follows_storage_order() {
    let mut map: LinearMap<_, _, 4> = LinearMap::new();
    map.insert("a", 1).unwrap();
    map.insert("b", 2).unwrap();
    map.insert("c", 3).unwrap();
    map.remove(&"a").unwrap();
    let mut seen = Vec::new();
    let mut it = map.iter();
    while let Some((k, v)) = it.next() {
        seen.push((*k, *v));
    }
    assert_eq!(seen, vec![("c", 3), ("b", 2)]);
}

#[test]
fn cloned_iter_resumes_from_the_same_place() {
    let mut map: LinearMap<_, _, 3> = LinearMap::new();
    map.insert(1, 'a').unwrap();
    map.insert(2, 'b').unwrap();
    let mut it = map.iter();
    assert_eq!(it.next(), Some((&1, &'a')));
    let mut copy = it.clone();
    assert_eq!(copy.next(), Some((&2, &'b')));
    assert_eq!(it.next(), Some((&2, &'b')));
    assert_eq!(copy.next(), None);
}

#[test]
fn views_reach_the_same_map() {
    let mut map: LinearMap<_, _, 2> = LinearMap::new();
    map.as_mut_view().insert(1, 'x').unwrap();
    assert_eq!(map.as_view().get(&1), Some(&'x'));
    assert_eq!(map.as_view().capacity(), 2);
    assert_eq!(map.len(), 1);
}

#[test]
fn swapping_views_keeps_each_capacity() {
    let mut small: LinearMap<u8, u8, 2> = LinearMap::new();
    let mut other: LinearMap<u8, u8, 2> = LinearMap::new();
    small.insert(1, 1).unwrap();
    other.insert(2, 2).unwrap();
    other.insert(3, 3).unwrap();
    std::mem::swap(small.as_mut_view(), other.as_mut_view());
    assert_eq!(small.capacity(), 2);
    assert_eq!(small.len(), 2);
    assert_eq!(small.insert(4, 4), Err((4, 4)));
    assert_eq!(other.len(), 1);
}

#[test]
fn into_iter_moves_every_entry_out_once() {
    let mut map: LinearMap<u32, String, 5> = LinearMap::new();
    for k in 0..5u32 {
        map.insert(k, format!("v{}", k)).unwrap();
    }
    map.remove(&1).unwrap();
    let mut it = map.into_iter();
    let mut seen = Vec::new();
    while let Some((k, v)) = it.next() {
        seen.push((k, v));
    }
    assert_eq!(
        seen,
        vec![
            (0, "v0".to_string()),
            (4, "v4".to_string()),
            (2, "v2".to_string()),
            (3, "v3".to_string())
        ]
    );
    assert!(it.next().is_none());
}

#[test]
fn string_keys_are_found() {
    let mut map: LinearMap<String, u8, 3> = LinearMap::new();
    map.insert("one".to_string(), 1).unwrap();
    map.insert("two".to_string(), 2).unwrap();
    assert_eq!(map.get(&"two".to_string()), Some(&2));
    assert_eq!(map.insert("one".to_string(), 11), Ok(Some(1)));
    assert_eq!(map.remove(&"one".to_string()), Some(11));
    assert_eq!(map.len(), 1);
}
