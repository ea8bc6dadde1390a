//! A fixed capacity map/dictionary that performs lookups via linear search.
//!
//! Most operations are *O*(n): the map does no hashing.
use vstd::prelude::*;
use vstd::std_specs::cmp::PartialEqSpec;

use crate::entries::{
    distinct_keys, entry_found_in, find_key, insert_entry, key_at_matches, key_eq_laws,
    lemma_first_match_found, lemma_no_match_found, lookup, remove_entry, same_entries,
};
use crate::iter::{IntoIter, Iter, IterMut, ValuesMut};
use crate::laws::{law_distinct_after_insert, law_distinct_after_remove};

verus! {

/// A map that holds at most `N` entries.
///
/// Its entries sit in a vector in insertion order (removal moves the last entry
/// into the hole); a lookup takes the first entry whose key compares equal.
pub struct LinearMapInner<K, V, const N: usize> {
    buffer: Vec<(K, V)>,
}

/// A fixed capacity map/dictionary that performs lookups via linear search.
pub type LinearMap<K, V, const N: usize> = LinearMapInner<K, V, N>;

impl<K, V, const N: usize> View for LinearMapInner<K, V, N> {
    type V = Seq<(K, V)>;

    /// The entries, in storage order.
    closed spec fn view(&self) -> Seq<(K, V)> {
        self.buffer@
    }
}

impl<K, V, const N: usize> LinearMap<K, V, N> {
    /// Creates an empty `LinearMap`.
    pub fn new() -> (r: Self)
        ensures
            r@ == Seq::<(K, V)>::empty(),
    {
        LinearMapInner { buffer: Vec::new() }
    }

    /// Get a reference to the `LinearMap` as a map.
    ///
    /// The capacity stays in the type: the map is handed out as it is.
    pub fn as_view(&self) -> (r: &LinearMapInner<K, V, N>)
        ensures
            *r == *self,
    {
        self
    }

    /// Get a mutable reference to the `LinearMap` as a map.
    ///
    /// The capacity stays in the type: the map is handed out as it is.
    pub fn as_mut_view(&mut self) -> (r: &mut LinearMapInner<K, V, N>)
        ensures
            *r == *old(self),
            *final(self) == *final(r),
    {
        self
    }

    /// A map that holds `entries`, in that order.
    ///
    /// The entries are taken as they are: equal keys are not merged.
    pub fn from_iter(entries: Vec<(K, V)>) -> (r: Self)
        requires
            entries@.len() <= N,
        ensures
            r@ == entries@,
    {
        LinearMapInner { buffer: entries }
    }

    /// An iterator that moves the entries out, in storage order.
    pub fn into_iter(self) -> (r: IntoIter<K, V, N>)
        ensures
            r.remaining() == self@,
    {
        let LinearMapInner { buffer } = self;
        IntoIter::new(buffer)
    }
}

impl<K: Eq, V, const N: usize> Default for LinearMap<K, V, N> {
    fn default() -> (r: Self)
        ensures
            r@ == Seq::<(K, V)>::empty(),
    {
        Self::new()
    }
}

impl<K: Eq + Clone, V: Clone, const N: usize> Clone for LinearMap<K, V, N> {
    /// A copy of the map, each key and value cloned, in the same order.
    fn clone(&self) -> (r: Self)
        ensures
            r@.len() == self@.len(),
            forall|i: int|
                0 <= i < self@.len() ==> cloned::<K>(self@[i].0, #[trigger] r@[i].0) && cloned::<V>(
                    self@[i].1,
                    r@[i].1,
                ),
    {
        proof {
            use_type_invariant(self);
        }
        let mut out: Vec<(K, V)> = Vec::new();
        let mut i: usize = 0;
        while i < self.buffer.len()
            invariant
                i <= self@.len(),
                self@.len() <= N,
                out@.len() == i,
                forall|j: int|
                    0 <= j < i ==> cloned::<K>(self@[j].0, #[trigger] out@[j].0) && cloned::<V>(
                        self@[j].1,
                        out@[j].1,
                    ),
            decreases self@.len() - i,
        {
            let entry = &self.buffer[i];
            let k = entry.0.clone();
            let v = entry.1.clone();
            out.push((k, v));
            i = i + 1;
        }
        LinearMapInner { buffer: out }
    }
}

impl<K, V, const N: usize> LinearMapInner<K, V, N> {
    /// A map never holds more entries than its capacity `N`.
    #[verifier::type_invariant]
    spec fn within_capacity(&self) -> bool {
        self.buffer@.len() <= N
    }

    /// Returns the number of elements that the map can hold: `N`.
    ///
    /// Computes in *O*(1) time.
    pub fn capacity(&self) -> (r: usize)
        ensures
            r == N,
            self@.len() <= r,
    {
        proof {
            use_type_invariant(self);
        }
        N
    }

    /// Returns the number of elements in this map.
    ///
    /// Computes in *O*(1) time.
    pub fn len(&self) -> (r: usize)
        ensures
            r == self@.len(),
            r <= N,
    {
        proof {
            use_type_invariant(self);
        }
        self.buffer.len()
    }

    /// Returns true if the map contains no elements.
    ///
    /// Computes in *O*(1) time.
    pub fn is_empty(&self) -> (r: bool)
        ensures
            r == (self@.len() == 0),
    {
        self.len() == 0
    }

    /// Returns true if the map is full.
    ///
    /// Computes in *O*(1) time.
    pub fn is_full(&self) -> (r: bool)
        ensures
            r == (self@.len() == N),
    {
        self.len() == self.capacity()
    }

    /// Clears the map, removing all key-value pairs.
    ///
    /// Computes in *O*(1) time.
    pub fn clear(&mut self)
        ensures
            final(self)@ == Seq::<(K, V)>::empty(),
    {
        self.buffer = Vec::new();
    }

    /// The keys of all entries, in storage order.
    pub fn keys(&self) -> (r: Vec<&K>)
        ensures
            r@.len() == self@.len(),
            forall|i: int| 0 <= i < self@.len() ==> *#[trigger] r@[i] == self@[i].0,
    {
        let mut out: Vec<&K> = Vec::new();
        let mut i: usize = 0;
        while i < self.buffer.len()
            invariant
                i <= self@.len(),
                out@.len() == i,
                forall|j: int| 0 <= j < i ==> *#[trigger] out@[j] == self@[j].0,
            decreases self@.len() - i,
        {
            out.push(&self.buffer[i].0);
            i = i + 1;
        }
        out
    }

    /// The values of all entries, in storage order.
    pub fn values(&self) -> (r: Vec<&V>)
        ensures
            r@.len() == self@.len(),
            forall|i: int| 0 <= i < self@.len() ==> *#[trigger] r@[i] == self@[i].1,
    {
        let mut out: Vec<&V> = Vec::new();
        let mut i: usize = 0;
        while i < self.buffer.len()
            invariant
                i <= self@.len(),
                out@.len() == i,
                forall|j: int| 0 <= j < i ==> *#[trigger] out@[j] == self@[j].1,
            decreases self@.len() - i,
        {
            out.push(&self.buffer[i].1);
            i = i + 1;
        }
        out
    }

    /// The key of entry `i`, with its value mutable.
    pub(crate) fn entry_mut(&mut self, i: usize) -> ((k, v): (&K, &mut V))
        requires
            i < old(self)@.len(),
        ensures
            *k == old(self)@[i as int].0,
            *v == old(self)@[i as int].1,
            final(self)@ == old(self)@.update(i as int, (old(self)@[i as int].0, *final(v))),
    {
        proof {
            use_type_invariant(&*self);
        }
        let entry = &mut self.buffer[i];
        (&entry.0, &mut entry.1)
    }

    /// An iterator visiting all key-value pairs in storage order.
    pub fn iter(&self) -> (r: Iter<'_, K, V>)
        ensures
            r.remaining() == self@,
    {
        Iter::new(&self.buffer)
    }

    /// An iterator visiting all key-value pairs in storage order, with mutable
    /// references to the values.
    pub fn iter_mut(&mut self) -> (r: IterMut<'_, K, V, N>)
        ensures
            *r.map == *old(self),
            r.pos == 0,
            *final(r.map) == *final(self),
    {
        IterMut { map: self, pos: 0 }
    }

    /// An iterator visiting all values mutably, in storage order.
    pub fn values_mut(&mut self) -> (r: ValuesMut<'_, K, V, N>)
        ensures
            *r.entries.map == *old(self),
            r.entries.pos == 0,
            *final(r.entries.map) == *final(self),
    {
        ValuesMut { entries: self.iter_mut() }
    }

    /// Moves the entries out, leaving the map empty.
    fn take_entries(&mut self) -> (r: Vec<(K, V)>)
        ensures
            r@ == old(self)@,
            final(self)@ == Seq::<(K, V)>::empty(),
    {
        let mut entries = Vec::new();
        std::mem::swap(&mut entries, &mut self.buffer);
        entries
    }
}

impl<K: Eq, V, const N: usize> LinearMapInner<K, V, N> {
    /// The position of the first entry whose key equals `key`.
    fn position(&self, key: &K) -> (r: Option<usize>)
        ensures
            r matches Some(i) ==> i < self@.len(),
            K::obeys_eq_spec() ==> match r {
                Some(i) => find_key(self@, *key) == Some(i as int),
                None => find_key(self@, *key) is None,
            },
    {
        let mut i: usize = 0;
        while i < self.buffer.len()
            invariant
                i <= self@.len(),
                K::obeys_eq_spec() ==> forall|j: int|
                    0 <= j < i ==> !#[trigger] key_at_matches(self@, j, *key),
            decreases self@.len() - i,
        {
            if self.buffer[i].0 == *key {
                proof {
                    if K::obeys_eq_spec() {
                        lemma_first_match_found(self@, *key, i as int);
                    }
                }
                return Some(i);
            }
            i = i + 1;
        }
        proof {
            if K::obeys_eq_spec() {
                lemma_no_match_found(self@, *key);
            }
        }
        None
    }

    /// Returns true if the map contains a value for the specified key.
    ///
    /// Computes in *O*(n) time.
    pub fn contains_key(&self, key: &K) -> (r: bool)
        ensures
            K::obeys_eq_spec() ==> r == find_key(self@, *key) is Some,
    {
        self.position(key).is_some()
    }

    /// Returns a reference to the value corresponding to the key.
    ///
    /// Computes in *O*(n) time.
    pub fn get(&self, key: &K) -> (r: Option<&V>)
        ensures
            r matches Some(v) ==> exists|i: int| 0 <= i < self@.len() && *v == #[trigger] self@[i].1,
            K::obeys_eq_spec() ==> match lookup(self@, *key) {
                Some(v) => r == Some(&v),
                None => r is None,
            },
    {
        match self.position(key) {
            Some(i) => {
                assert(self.buffer[i as int].1 == self@[i as int].1);
                Some(&self.buffer[i].1)
            },
            None => None,
        }
    }

    /// Returns a mutable reference to the value corresponding to the key.
    ///
    /// Computes in *O*(n) time.
    pub fn get_mut(&mut self, key: &K) -> (r: Option<&mut V>)
        ensures
            r is None ==> *final(self) == *old(self),
            r matches Some(v) ==> exists|i: int|
                0 <= i < old(self)@.len() && *v == #[trigger] old(self)@[i].1 && final(self)@ == old(
                    self,
                )@.update(i, (old(self)@[i].0, *final(v))),
            K::obeys_eq_spec() ==> match find_key(old(self)@, *key) {
                Some(i) => r matches Some(v) && {
                    &&& *v == old(self)@[i].1
                    &&& final(self)@ == insert_entry(old(self)@, *key, *final(v))
                },
                None => r is None,
            },
    {
        match self.position(key) {
            Some(i) => {
                let (_, v) = self.entry_mut(i);
                Some(v)
            },
            None => None,
        }
    }

    /// Returns a reference to the value of a key that the map holds.
    ///
    /// The key must be present.
    pub fn index(&self, key: &K) -> (r: &V)
        requires
            K::obeys_eq_spec(),
            find_key(self@, *key) is Some,
        ensures
            *r == self@[find_key(self@, *key)->0].1,
    {
        match self.position(key) {
            Some(i) => &self.buffer[i].1,
            None => {
                assert(false);
                &self.buffer[0].1
            },
        }
    }

    /// Returns a mutable reference to the value of a key that the map holds.
    ///
    /// The key must be present.
    pub fn index_mut(&mut self, key: &K) -> (r: &mut V)
        requires
            K::obeys_eq_spec(),
            find_key(old(self)@, *key) is Some,
        ensures
            ({
                let i = find_key(old(self)@, *key)->0;
                &&& *r == old(self)@[i].1
                &&& final(self)@ == insert_entry(old(self)@, *key, *final(r))
            }),
    {
        let i = match self.position(key) {
            Some(i) => i,
            None => {
                assert(false);
                0
            },
        };
        let (_, v) = self.entry_mut(i);
        v
    }

    /// Inserts a key-value pair into the map.
    ///
    /// If the map did not have this key present, the pair is appended and `Ok(None)`
    /// is returned, or `Err((key, value))` when the map is full.
    ///
    /// If the map did have this key present, the value is updated (the stored key
    /// stays), and the old value is returned.
    ///
    /// Computes in *O*(n) time
    pub fn insert(&mut self, key: K, value: V) -> (r: Result<Option<V>, (K, V)>)
        ensures
            r matches Err(pair) ==> pair == (key, value) && old(self)@.len() == N,
            r is Err ==> final(self)@ == old(self)@,
            r matches Ok(None) ==> final(self)@ == old(self)@.push((key, value)),
            r matches Ok(Some(v)) ==> exists|i: int|
                0 <= i < old(self)@.len() && v == #[trigger] old(self)@[i].1 && final(self)@ == old(
                    self,
                )@.update(i, (old(self)@[i].0, value)),
            K::obeys_eq_spec() ==> match find_key(old(self)@, key) {
                Some(i) => r == Ok::<Option<V>, (K, V)>(Some(old(self)@[i].1)),
                None => if old(self)@.len() < N {
                    r == Ok::<Option<V>, (K, V)>(None)
                } else {
                    r == Err::<Option<V>, (K, V)>((key, value))
                },
            },
            K::obeys_eq_spec() && r is Ok ==> final(self)@ == insert_entry(old(self)@, key, value),
            key_eq_laws::<K>() && distinct_keys(old(self)@) ==> distinct_keys(final(self)@),
    {
        proof {
            use_type_invariant(&*self);
            if key_eq_laws::<K>() && distinct_keys(self@) {
                law_distinct_after_insert(self@, key, value);
            }
        }
        match self.position(&key) {
            Some(i) => {
                let mut value = value;
                std::mem::swap(&mut self.buffer[i].1, &mut value);
                Ok(Some(value))
            },
            None => {
                if self.buffer.len() < N {
                    let mut entries = self.take_entries();
                    entries.push((key, value));
                    self.buffer = entries;
                    Ok(None)
                } else {
                    Err((key, value))
                }
            },
        }
    }

    /// Removes a key from the map, returning the value at
    /// the key if the key was previously in the map.
    ///
    /// The last entry takes the place of the removed one.
    ///
    /// Computes in *O*(n) time
    pub fn remove(&mut self, key: &K) -> (r: Option<V>)
        ensures
            r is None ==> final(self)@ == old(self)@,
            r matches Some(v) ==> exists|i: int|
                0 <= i < old(self)@.len() && v == #[trigger] old(self)@[i].1 && final(self)@ == old(
                    self,
                )@.update(i, old(self)@.last()).drop_last(),
            K::obeys_eq_spec() ==> r == lookup(old(self)@, *key),
            K::obeys_eq_spec() ==> final(self)@ == remove_entry(old(self)@, *key),
            key_eq_laws::<K>() && distinct_keys(old(self)@) ==> distinct_keys(final(self)@),
    {
        proof {
            if key_eq_laws::<K>() && distinct_keys(self@) {
                law_distinct_after_remove(self@, *key);
            }
        }
        match self.position(key) {
            Some(i) => {
                proof {
                    use_type_invariant(&*self);
                }
                let mut entries = self.take_entries();
                let (_, value) = entries.swap_remove(i);
                self.buffer = entries;
                Some(value)
            },
            None => None,
        }
    }
}

impl<K: Eq, V: PartialEq, const N1: usize, const N2: usize> PartialEq<LinearMapInner<K, V, N2>> for LinearMapInner<K, V, N1> {
    fn eq(&self, other: &LinearMapInner<K, V, N2>) -> (r: bool) {
        if self.buffer.len() != other.buffer.len() {
            return false;
        }
        let mut i: usize = 0;
        while i < self.buffer.len()
            invariant
                i <= self@.len(),
                self@.len() == other@.len(),
                (K::obeys_eq_spec() && V::obeys_eq_spec()) ==> forall|j: int|
                    0 <= j < i ==> #[trigger] entry_found_in(self@[j], other@),
            decreases self@.len() - i,
        {
            match other.position(&self.buffer[i].0) {
                Some(j) => {
                    if !(self.buffer[i].1 == other.buffer[j].1) {
                        assert((K::obeys_eq_spec() && V::obeys_eq_spec()) ==> !entry_found_in(
                            self@[i as int],
                            other@,
                        ));
                        return false;
                    }
                },
                None => {
                    assert(K::obeys_eq_spec() ==> !entry_found_in(self@[i as int], other@));
                    return false;
                },
            }
            i = i + 1;
        }
        true
    }
}

impl<K: Eq, V: PartialEq, const N1: usize, const N2: usize> vstd::std_specs::cmp::PartialEqSpecImpl<LinearMapInner<K, V, N2>> for LinearMapInner<K, V, N1> {
    open spec fn obeys_eq_spec() -> bool {
        K::obeys_eq_spec() && V::obeys_eq_spec()
    }

    open spec fn eq_spec(&self, other: &LinearMapInner<K, V, N2>) -> bool {
        same_entries(self@, other@)
    }
}

impl<K: Eq, V: PartialEq, const N: usize> Eq for LinearMapInner<K, V, N> {

}

} // verus!
