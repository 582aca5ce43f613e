use std::collections::HashMap;
use std::sync::Arc;
use vstd::prelude::*;
use vstd::std_specs::hash::obeys_key_model;

verus! {

broadcast use vstd::std_specs::hash::group_hash_axioms;


/// Relies on HashMap::shrink_to_fit: only capacity changes, never
/// contents.
#[verifier::external_body]
fn table_shrink<K: core::cmp::Eq + core::hash::Hash, V>(m: &mut HashMap<K, V>)
    ensures
        final(m)@ == old(m)@,
{
    m.shrink_to_fit()
}

/// A hashed map from keys to values, shareable behind `Arc` once
/// built, and meant to live behind a lock while it is mutated.
/// Exclusive access (`&mut self`) stands for holding that lock, so
/// every operation is total and its effect on the contents is stated
/// exactly.
pub struct SyncHashMapImpl<K, V> {
    inner: HashMap<K, V>,
}

impl<K, V> View for SyncHashMapImpl<K, V> {
    type V = Map<K, V>;

    closed spec fn view(&self) -> Map<K, V> {
        self.inner@
    }
}

impl<K: core::cmp::Eq + core::hash::Hash, V> SyncHashMapImpl<K, V> {
    /// An empty map.
    pub fn new() -> (r: Self)
        ensures
            r@ =~= Map::<K, V>::empty(),
    {
        SyncHashMapImpl { inner: HashMap::new() }
    }

    /// An empty map behind a shared handle.
    pub fn new_arc() -> (r: Arc<Self>)
        ensures
            (*r)@ =~= Map::<K, V>::empty(),
    {
        Arc::new(Self::new())
    }

    /// Takes ownership of an existing table.
    pub fn from(m: HashMap<K, V>) -> (r: Self)
        ensures
            r@ == m@,
    {
        SyncHashMapImpl { inner: m }
    }

    /// An empty map with room reserved for `capacity` pairs.
    pub fn with_capacity(capacity: usize) -> (r: Self)
        ensures
            r@ =~= Map::<K, V>::empty(),
    {
        SyncHashMapImpl { inner: HashMap::with_capacity(capacity) }
    }

    /// Stores `v` under `k`, returning the value previously stored
    /// under `k`, if any.
    pub fn insert(&mut self, k: K, v: V) -> (r: Option<V>)
        requires
            obeys_key_model::<K>(),
        ensures
            final(self)@ == old(self)@.insert(k, v),
            r matches Some(prev) ==> old(self)@.contains_key(k) && prev == old(self)@[k],
            r is None ==> !old(self)@.contains_key(k),
    {
        self.inner.insert(k, v)
    }

    /// Removes the value stored under `k` and returns it, if any.
    pub fn remove(&mut self, k: &K) -> (r: Option<V>)
        requires
            obeys_key_model::<K>(),
        ensures
            final(self)@ == old(self)@.remove(*k),
            r matches Some(prev) ==> old(self)@.contains_key(*k) && prev == old(self)@[*k],
            r is None ==> !old(self)@.contains_key(*k),
    {
        self.inner.remove(k)
    }

    /// The number of stored pairs.
    pub fn len(&self) -> (r: usize)
        requires
            obeys_key_model::<K>(),
        ensures
            r == self@.len(),
    {
        self.inner.len()
    }

    /// Whether no pair is stored.
    pub fn is_empty(&self) -> (r: bool)
        requires
            obeys_key_model::<K>(),
        ensures
            r == self@.is_empty(),
    {
        self.inner.is_empty()
    }


    /// Gives unused table room back to the allocator.
    pub fn shrink_to_fit(&mut self)
        ensures
            final(self)@ == old(self)@,
    {
        table_shrink(&mut self.inner);
    }

    /// Removes every pair.
    pub fn clear(&mut self)
        ensures
            final(self)@ =~= Map::<K, V>::empty(),
    {
        self.inner.clear();
    }

    /// The value stored under `k`, or `None` when `k` is absent.
    pub fn get(&self, k: &K) -> (r: Option<&V>)
        requires
            obeys_key_model::<K>(),
        ensures
            r matches Some(v) ==> self@.contains_key(*k) && *v == self@[*k],
            r is None ==> !self@.contains_key(*k),
    {
        self.inner.get(k)
    }

    /// A read view of the contents, for iteration.
    pub fn iter(&self) -> (r: &HashMap<K, V>)
        ensures
            r@ == self@,
    {
        &self.inner
    }

    /// A write view of the contents, for iteration with mutation.
    pub fn iter_mut(&mut self) -> (r: &mut HashMap<K, V>)
        ensures
            r@ == old(self)@,
            final(self)@ == final(r)@,
    {
        &mut self.inner
    }

    /// The contents, consumed as a plain table.
    pub fn into_iter(self) -> (r: HashMap<K, V>)
        ensures
            r@ == self@,
    {
        self.inner
    }
}

} // verus!
