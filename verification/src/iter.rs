//! Iterators over the entries of a linear map.
//!
//! Each offers `next`, which hands out the entries in storage order.
use vstd::prelude::*;

use crate::linear_map::LinearMapInner;

verus! {

/// An iterator over the entries of a [`LinearMapInner`](crate::linear_map::LinearMapInner).
///
/// This struct is created by the `iter` method of the map.
#[derive(Debug)]
pub struct Iter<'a, K, V> {
    entries: &'a Vec<(K, V)>,
    pos: usize,
}

impl<'a, K, V> Iter<'a, K, V> {
    /// The iterator never runs past the end of the entries.
    #[verifier::type_invariant]
    spec fn within_entries(&self) -> bool {
        self.pos <= self.entries@.len()
    }

    /// The entries that are still to come, in order.
    pub closed spec fn remaining(&self) -> Seq<(K, V)> {
        self.entries@.skip(self.pos as int)
    }

    pub(crate) fn new(entries: &'a Vec<(K, V)>) -> (r: Self)
        ensures
            r.remaining() == entries@,
    {
        let r = Iter { entries, pos: 0 };
        assert(r.remaining() =~= entries@);
        r
    }

    /// Hands out the next entry, if any.
    pub fn next(&mut self) -> (r: Option<(&'a K, &'a V)>)
        ensures
            old(self).remaining().len() == 0 ==> r is None && final(self).remaining() == old(
                self,
            ).remaining(),
            old(self).remaining().len() > 0 ==> (r matches Some((k, v)) && {
                &&& *k == old(self).remaining()[0].0
                &&& *v == old(self).remaining()[0].1
                &&& final(self).remaining() == old(self).remaining().drop_first()
            }),
    {
        proof {
            use_type_invariant(&*self);
        }
        if self.pos < self.entries.len() {
            let entries: &'a Vec<(K, V)> = self.entries;
            let entry: &'a (K, V) = &entries[self.pos];
            self.pos = self.pos + 1;
            assert(self.remaining() =~= old(self).remaining().drop_first());
            Some((&entry.0, &entry.1))
        } else {
            None
        }
    }
}

impl<'a, K, V> Clone for Iter<'a, K, V> {
    fn clone(&self) -> (r: Self)
        ensures
            r.remaining() == self.remaining(),
    {
        proof {
            use_type_invariant(self);
        }
        Iter { entries: self.entries, pos: self.pos }
    }
}

/// An iterator that moves the entries out of a [`LinearMap`](crate::linear_map::LinearMap).
///
/// This struct is created by the `into_iter` method of the map.
pub struct IntoIter<K, V, const N: usize> {
    /// The entries still to come, the next one last.
    reversed: Vec<(K, V)>,
}

impl<K, V, const N: usize> IntoIter<K, V, N> {
    /// The entries that are still to come, in order.
    pub closed spec fn remaining(&self) -> Seq<(K, V)> {
        self.reversed@.reverse()
    }

    pub(crate) fn new(entries: Vec<(K, V)>) -> (r: Self)
        ensures
            r.remaining() == entries@,
    {
        let ghost all = entries@;
        let mut entries = entries;
        let mut reversed: Vec<(K, V)> = Vec::new();
        assert(entries@ + reversed@.reverse() =~= all);
        while entries.len() > 0
            invariant
                entries@ + reversed@.reverse() == all,
            decreases entries@.len(),
        {
            let ghost before = entries@;
            let ghost rev_before = reversed@;
            let entry = entries.pop().unwrap();
            reversed.push(entry);
            assert(reversed@.reverse() =~= seq![entry] + rev_before.reverse());
            assert(entries@ + reversed@.reverse() =~= before + rev_before.reverse());
        }
        assert(reversed@.reverse() =~= all);
        IntoIter { reversed }
    }

    /// Hands out the next entry, if any.
    pub fn next(&mut self) -> (r: Option<(K, V)>)
        ensures
            old(self).remaining().len() == 0 ==> r is None && final(self).remaining() == old(
                self,
            ).remaining(),
            old(self).remaining().len() > 0 ==> {
                &&& r == Some(old(self).remaining()[0])
                &&& final(self).remaining() == old(self).remaining().drop_first()
            },
    {
        if self.reversed.len() > 0 {
            let entry = self.reversed.pop().unwrap();
            assert(self.remaining() =~= old(self).remaining().drop_first());
            Some(entry)
        } else {
            assert(self.remaining() =~= Seq::<(K, V)>::empty());
            None
        }
    }
}

} // verus!

verus! {

/// An iterator over the entries of a map that hands out each value as a
/// mutable reference, one entry at a time.
///
/// This struct is created by the `iter_mut` method of the map.
pub struct IterMut<'a, K, V, const N: usize> {
    /// The map whose entries are handed out.
    pub map: &'a mut LinearMapInner<K, V, N>,
    /// The position of the next entry to hand out.
    pub pos: usize,
}

impl<'a, K, V, const N: usize> IterMut<'a, K, V, N> {
    /// Hands out the next entry, if any, with its value mutable.
    pub fn next(&mut self) -> (r: Option<(&K, &mut V)>)
        ensures
            *final(final(self).map) == *final(old(self).map),
            old(self).pos >= old(self).map@.len() ==> {
                &&& r is None
                &&& final(self).pos == old(self).pos
                &&& *final(self).map == *old(self).map
            },
            old(self).pos < old(self).map@.len() ==> (r matches Some((k, v)) && {
                let i = old(self).pos as int;
                &&& *k == old(self).map@[i].0
                &&& *v == old(self).map@[i].1
                &&& final(self).pos == old(self).pos + 1
                &&& final(self).map@ == old(self).map@.update(i, (old(self).map@[i].0, *final(v)))
            }),
    {
        if self.pos < self.map.len() {
            let i = self.pos;
            self.pos = i + 1;
            let (k, v) = self.map.entry_mut(i);
            Some((k, v))
        } else {
            None
        }
    }
}

} // verus!

verus! {

/// An iterator over the values of a map that hands out each value as a
/// mutable reference, one entry at a time.
///
/// This struct is created by the `values_mut` method of the map.
pub struct ValuesMut<'a, K, V, const N: usize> {
    /// The iterator over the entries whose values are handed out.
    pub entries: IterMut<'a, K, V, N>,
}

impl<'a, K, V, const N: usize> ValuesMut<'a, K, V, N> {
    /// Hands out the value of the next entry, if any, mutable.
    pub fn next(&mut self) -> (r: Option<&mut V>)
        ensures
            *final(final(self).entries.map) == *final(old(self).entries.map),
            old(self).entries.pos >= old(self).entries.map@.len() ==> {
                &&& r is None
                &&& final(self).entries.pos == old(self).entries.pos
                &&& *final(self).entries.map == *old(self).entries.map
            },
            old(self).entries.pos < old(self).entries.map@.len() ==> (r matches Some(v) && {
                let i = old(self).entries.pos as int;
                let before = old(self).entries.map@;
                &&& *v == before[i].1
                &&& final(self).entries.pos == old(self).entries.pos + 1
                &&& final(self).entries.map@ == before.update(i, (before[i].0, *final(v)))
            }),
    {
        match self.entries.next() {
            Some((_, v)) => Some(v),
            None => None,
        }
    }
}

} // verus!
