//! A map of objects by their 64-bit keys, kept in a `BTreeMap`. The
//! kernel's object managers keep their objects in one.

use std::collections::BTreeMap;
use vstd::prelude::*;

verus! {

broadcast use {vstd::std_specs::btree::group_btree_axioms, vstd::laws_cmp::group_laws_cmp};

/// An object named by a 64-bit key.
pub trait Keyed {
    /// The object's key.
    spec fn key_of(&self) -> u64;

    /// The object's key.
    fn key(&self) -> (k: u64)
        ensures
            k == self.key_of(),
    ;
}

/// Objects by key.
pub struct KeyedMap<T> {
    items: BTreeMap<u64, T>,
}

impl<T: Keyed> KeyedMap<T> {
    /// The objects by key.
    pub closed spec fn view(&self) -> Map<u64, T> {
        self.items@
    }

    /// The number of objects.
    pub open spec fn count(&self) -> nat {
        self@.dom().len()
    }

    /// Every object is held under its own key.
    pub open spec fn wf(&self) -> bool {
        forall|k: u64| #[trigger] self@.contains_key(k) ==> self@[k].key_of() == k
    }

    /// The objects held are finitely many.
    pub proof fn lemma_finite(&self)
        ensures
            self@.dom().finite(),
    {
    }

    /// An empty map.
    pub fn new() -> (l: Self)
        ensures
            l.wf(),
            l@ == Map::<u64, T>::empty(),
            l.count() == 0,
    {
        KeyedMap { items: BTreeMap::new() }
    }

    /// Number of objects.
    pub fn len(&self) -> (n: usize)
        ensures
            n == self.count(),
    {
        self.items.len()
    }

    /// An object with key `k` is present.
    pub fn contains(&self, k: u64) -> (b: bool)
        ensures
            b == self@.contains_key(k),
    {
        self.items.contains_key(&k)
    }

    /// The object with key `k`.
    pub fn get(&self, k: u64) -> (r: Option<&T>)
        ensures
            match r {
                Some(t) => self@.contains_key(k) && *t == self@[k],
                None => !self@.contains_key(k),
            },
    {
        self.items.get(&k)
    }

    /// Remove and return the object with key `k`.
    pub fn remove(&mut self, k: u64) -> (r: Option<T>)
        requires
            old(self).wf(),
        ensures
            final(self).wf(),
            final(self)@ == old(self)@.remove(k),
            match r {
                Some(t) => old(self)@.contains_key(k) && t == old(self)@[k] && final(self).count() == old(self).count() - 1,
                None => !old(self)@.contains_key(k) && final(self).count() == old(self).count(),
            },
    {
        let r = self.items.remove(&k);
        proof {
            old(self).lemma_finite();
            if r is None {
                assert(self@ =~= old(self)@);
            }
        }
        r
    }

    /// Add an object under its key, replacing the object with the same key.
    pub fn insert(&mut self, t: T)
        requires
            old(self).wf(),
        ensures
            final(self).wf(),
            final(self)@ == old(self)@.insert(t.key_of(), t),
            final(self).count() == old(self).count() + (if old(self)@.contains_key(t.key_of()) { 0int } else { 1int }),
    {
        let k = t.key();
        let _ = self.items.insert(k, t);
        proof {
            old(self).lemma_finite();
            if old(self)@.contains_key(k) {
                assert(self@.dom() =~= old(self)@.dom());
            }
        }
    }
}

} // verus!
