use crate::stack::Stack;
use vstd::prelude::*;

verus! {

/// The cache of pre-built coroutine shells: the costly part of a
/// shell is its stack, so the cache is a bounded free list of
/// stacks.  `get` prefers a cached shell and builds a fresh one only
/// when the cache is empty; `put` keeps a returned shell while there
/// is room and discards it otherwise.  This amortises stack
/// allocation across spawn/exit cycles.
pub struct CoroutinePool {
    shells: Vec<Stack>,
    capacity: usize,
    stack_size: usize,
}

impl CoroutinePool {
    /// The cached shells.
    pub closed spec fn spec_shells(&self) -> Seq<Stack> {
        self.shells@
    }

    /// How many shells the cache may hold.
    pub closed spec fn spec_capacity(&self) -> usize {
        self.capacity
    }

    /// The size of a freshly built stack.
    pub closed spec fn spec_stack_size(&self) -> usize {
        self.stack_size
    }

    /// An empty cache for up to `capacity` shells of `stack_size`
    /// bytes each.
    pub fn new(capacity: usize, stack_size: usize) -> (r: CoroutinePool)
        ensures
            r.spec_shells() =~= Seq::<Stack>::empty(),
            r.spec_capacity() == capacity,
            r.spec_stack_size() == stack_size,
    {
        CoroutinePool { shells: Vec::new(), capacity, stack_size }
    }

    /// How many shells are cached.
    pub fn len(&self) -> (r: usize)
        ensures
            r == self.spec_shells().len(),
    {
        self.shells.len()
    }

    /// A shell to spawn on: the most recently returned cached one,
    /// or a fresh stack of the configured size when the cache is
    /// empty.
    pub fn get(&mut self) -> (r: Stack)
        ensures
            final(self).spec_capacity() == old(self).spec_capacity(),
            final(self).spec_stack_size() == old(self).spec_stack_size(),
            old(self).spec_shells().len() > 0 ==> r == old(self).spec_shells().last() && final(self).spec_shells() == old(self).spec_shells().drop_last(),
            old(self).spec_shells().len() == 0 ==> r.spec_size() == old(self).spec_stack_size()
                && r.spec_used() == 0 && final(self).spec_shells() == old(self).spec_shells(),
    {
        match self.shells.pop() {
            Some(st) => st,
            None => Stack::new(self.stack_size),
        }
    }

    /// Returns a shell to the cache; with the cache full the shell
    /// is discarded instead.
    pub fn put(&mut self, st: Stack)
        ensures
            final(self).spec_capacity() == old(self).spec_capacity(),
            final(self).spec_stack_size() == old(self).spec_stack_size(),
            old(self).spec_shells().len() < old(self).spec_capacity() ==> final(self).spec_shells() == old(self).spec_shells().push(st),
            old(self).spec_shells().len() >= old(self).spec_capacity() ==> final(self).spec_shells() == old(self).spec_shells(),
    {
        if self.shells.len() < self.capacity {
            self.shells.push(st);
        }
    }
}

} // verus!
