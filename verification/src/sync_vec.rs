use std::sync::Arc;
use vstd::prelude::*;

verus! {

/// A growable sequence of values, built for sharing behind a lock.
/// Exclusive access (`&mut self`) stands for holding that lock, so
/// every operation is total and its effect on the contents is stated
/// exactly.
pub struct SyncVecImpl<V> {
    inner: Vec<V>,
}

impl<V> View for SyncVecImpl<V> {
    type V = Seq<V>;

    closed spec fn view(&self) -> Seq<V> {
        self.inner@
    }
}

/// Relies on Vec::shrink_to_fit: only capacity changes, never contents.
#[verifier::external_body]
fn vec_shrink<V>(v: &mut Vec<V>)
    ensures
        final(v)@ == old(v)@,
{
    v.shrink_to_fit()
}

impl<V> SyncVecImpl<V> {
    /// An empty vector.
    pub fn new() -> (r: Self)
        ensures
            r@ =~= Seq::<V>::empty(),
    {
        SyncVecImpl { inner: Vec::new() }
    }

    /// An empty vector behind a shared handle.
    pub fn new_arc() -> (r: Arc<Self>)
        ensures
            (*r)@ =~= Seq::<V>::empty(),
    {
        Arc::new(Self::new())
    }

    /// An empty vector with room reserved for `capacity` values.
    pub fn with_capacity(capacity: usize) -> (r: Self)
        ensures
            r@ =~= Seq::<V>::empty(),
    {
        SyncVecImpl { inner: Vec::with_capacity(capacity) }
    }

    /// Takes ownership of an existing vector.
    pub fn from(v: Vec<V>) -> (r: Self)
        ensures
            r@ == v@,
    {
        SyncVecImpl { inner: v }
    }

    /// Inserts `v` at position `index`, shifting the tail right.
    /// Returns `None`, meaning the value was stored.
    pub fn insert(&mut self, index: usize, v: V) -> (r: Option<V>)
        requires
            index <= old(self)@.len(),
            old(self)@.len() < usize::MAX,
        ensures
            final(self)@ == old(self)@.insert(index as int, v),
            r is None,
    {
        self.inner.insert(index, v);
        None
    }

    /// Appends `v`.  Returns `None`, meaning the value was stored.
    pub fn push(&mut self, v: V) -> (r: Option<V>)
        requires
            old(self)@.len() < usize::MAX,
        ensures
            final(self)@ == old(self)@.push(v),
            r is None,
    {
        self.inner.push(v);
        None
    }

    /// Removes and returns the last value, or `None` when empty.
    pub fn pop(&mut self) -> (r: Option<V>)
        ensures
            old(self)@.len() == 0 ==> r is None && final(self)@ == old(self)@,
            old(self)@.len() > 0 ==> r == Some(old(self)@.last()) && final(self)@
                == old(self)@.drop_last(),
    {
        self.inner.pop()
    }

    /// Removes and returns the value at `index`, shifting the tail
    /// left; `None` when `index` is out of range.
    pub fn remove(&mut self, index: usize) -> (r: Option<V>)
        ensures
            index < old(self)@.len() ==> r == Some(old(self)@[index as int]) && final(self)@
                == old(self)@.remove(index as int),
            index >= old(self)@.len() ==> r is None && final(self)@ == old(self)@,
    {
        if index < self.inner.len() {
            Some(self.inner.remove(index))
        } else {
            None
        }
    }

    /// The number of stored values.
    pub fn len(&self) -> (r: usize)
        ensures
            r == self@.len(),
    {
        self.inner.len()
    }

    /// Whether no value is stored.
    pub fn is_empty(&self) -> (r: bool)
        ensures
            r == (self@.len() == 0),
    {
        self.inner.is_empty()
    }

    /// Removes every value.
    pub fn clear(&mut self)
        ensures
            final(self)@ =~= Seq::<V>::empty(),
    {
        self.inner.clear();
    }

    /// Gives unused capacity back to the allocator.
    pub fn shrink_to_fit(&mut self)
        ensures
            final(self)@ == old(self)@,
    {
        vec_shrink(&mut self.inner);
    }

    /// The value at `index`, or `None` when out of range.
    pub fn get(&self, index: usize) -> (r: Option<&V>)
        ensures
            index < self@.len() ==> r == Some(&self@[index as int]),
            index >= self@.len() ==> r is None,
    {
        if index < self.inner.len() {
            Some(&self.inner[index])
        } else {
            None
        }
    }

    /// Exclusive access to the value at `index`; `index` must be in
    /// range, which the caller checks with `len`.
    pub fn get_mut(&mut self, index: usize) -> (r: &mut V)
        requires
            index < old(self)@.len(),
        ensures
            *r == old(self)@[index as int],
            final(self)@ == old(self)@.update(index as int, *final(r)),
    {
        &mut self.inner[index]
    }

    /// A read view of the contents, for iteration.
    pub fn iter(&self) -> (r: &Vec<V>)
        ensures
            r@ == self@,
    {
        &self.inner
    }

    /// A write view of the contents, for iteration with mutation.
    pub fn iter_mut(&mut self) -> (r: &mut Vec<V>)
        ensures
            r@ == old(self)@,
            final(self)@ == final(r)@,
    {
        &mut self.inner
    }

    /// The contents, consumed as a plain vector.
    pub fn into_iter(self) -> (r: Vec<V>)
        ensures
            r@ == self@,
    {
        self.inner
    }
}

} // verus!
