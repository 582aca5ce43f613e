use std::collections::BTreeMap;
use vstd::laws_cmp::obeys_cmp;
use vstd::prelude::*;

verus! {

broadcast use vstd::std_specs::btree::group_btree_axioms;

/// An ordered map from keys to values, built for sharing behind a
/// lock.  Exclusive access (`&mut self`) stands for holding that
/// lock, so every operation is total and its effect on the contents
/// is stated exactly.
pub struct SyncMapImpl<K, V> {
    inner: BTreeMap<K, V>,
}

impl<K, V> View for SyncMapImpl<K, V> {
    type V = Map<K, V>;

    closed spec fn view(&self) -> Map<K, V> {
        self.inner@
    }
}

impl<K: Ord, V> SyncMapImpl<K, V> {
    /// An empty map.
    pub fn new() -> (r: Self)
        ensures
            r@ =~= Map::<K, V>::empty(),
    {
        SyncMapImpl { inner: BTreeMap::new() }
    }

    /// An empty map; the tree needs no room reserved, so the capacity
    /// is taken and ignored.
    pub fn with_capacity(capacity: usize) -> (r: Self)
        ensures
            r@ =~= Map::<K, V>::empty(),
    {
        let _ = capacity;
        Self::new()
    }

    /// Stores `v` under `k`, returning the value previously stored
    /// under `k`, if any.
    pub fn insert(&mut self, k: K, v: V) -> (r: Option<V>)
        requires
            obeys_cmp::<K>(),
        ensures
            final(self)@ == old(self)@.insert(k, v),
            r matches Some(prev) ==> old(self)@.contains_key(k) && prev == old(self)@[k],
            r is None ==> !old(self)@.contains_key(k),
    {
        self.inner.insert(k, v)
    }

    /// Removes the value stored under `k` and returns it, if any.
    pub fn remove(&mut self, k: &K) -> (r: Option<V>)
        requires
            obeys_cmp::<K>(),
        ensures
            final(self)@ == old(self)@.remove(*k),
            r matches Some(prev) ==> old(self)@.contains_key(*k) && prev == old(self)@[*k],
            r is None ==> !old(self)@.contains_key(*k),
    {
        self.inner.remove(k)
    }

    /// The number of stored pairs.
    pub fn len(&self) -> (r: usize)
        requires
            obeys_cmp::<K>(),
        ensures
            r == self@.len(),
    {
        self.inner.len()
    }

    /// Whether no pair is stored.
    pub fn is_empty(&self) -> (r: bool)
        requires
            obeys_cmp::<K>(),
        ensures
            r == self@.is_empty(),
    {
        self.inner.is_empty()
    }

    /// Removes every pair.
    pub fn clear(&mut self)
        ensures
            final(self)@ =~= Map::<K, V>::empty(),
    {
        self.inner.clear();
    }

    /// The tree keeps no spare room, so there is nothing to give back.
    pub fn shrink_to_fit(&mut self)
        ensures
            final(self)@ == old(self)@,
    {
    }

    /// The value stored under `k`, or `None` when `k` is absent.
    pub fn get(&self, k: &K) -> (r: Option<&V>)
        requires
            obeys_cmp::<K>(),
        ensures
            r matches Some(v) ==> self@.contains_key(*k) && *v == self@[*k],
            r is None ==> !self@.contains_key(*k),
    {
        self.inner.get(k)
    }

    /// A read view of the contents, for iteration.
    pub fn iter(&self) -> (r: &BTreeMap<K, V>)
        ensures
            r@ == self@,
    {
        &self.inner
    }

    /// A write view of the contents, for iteration with mutation.
    pub fn iter_mut(&mut self) -> (r: &mut BTreeMap<K, V>)
        ensures
            r@ == old(self)@,
            final(self)@ == final(r)@,
    {
        &mut self.inner
    }

    /// The contents, consumed as a plain tree.
    pub fn into_iter(self) -> (r: BTreeMap<K, V>)
        ensures
            r@ == self@,
    {
        self.inner
    }
}

} // verus!
