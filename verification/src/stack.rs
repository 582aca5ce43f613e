use vstd::prelude::*;

verus! {

/// A coroutine stack: a fixed-capacity region together with the
/// high-water mark of bytes that have ever been live on it.  The
/// region itself lives with the driver; the runtime's accounting and
/// its overflow gate work on these two numbers.
#[derive(Clone, Copy, Debug, PartialEq, Eq, Structural)]
pub struct Stack {
    size: usize,
    used: usize,
}

impl Stack {
    /// The capacity in bytes.
    pub closed spec fn spec_size(&self) -> usize {
        self.size
    }

    /// The high-water mark in bytes; it never exceeds the capacity.
    pub closed spec fn spec_used(&self) -> usize {
        self.used
    }

    /// A fresh region of `capacity` usable bytes, none of them live
    /// yet.
    pub fn new(capacity: usize) -> (r: Stack)
        ensures
            r.spec_size() == capacity,
            r.spec_used() == 0,
    {
        Stack { size: capacity, used: 0 }
    }

    /// Accounts for `bytes` of the region being live.  The high-water
    /// mark only grows, and a demand at or beyond the capacity pins
    /// it to the capacity, where the overflow gate will find it.
    pub fn record_use(&mut self, bytes: usize)
        ensures
            final(self).spec_size() == old(self).spec_size(),
            final(self).spec_used() == vstd::math::max(
                old(self).spec_used() as int,
                vstd::math::min(bytes as int, old(self).spec_size() as int),
            ),
            final(self).spec_used() >= old(self).spec_used(),
    {
        let capped = if bytes > self.size {
            self.size
        } else {
            bytes
        };
        if capped > self.used {
            self.used = capped;
        }
    }

    /// The capacity in bytes.
    pub fn size(&self) -> (r: usize)
        ensures
            r == self.spec_size(),
    {
        self.size
    }

    /// The capacity and the high-water mark, as the recycling gate
    /// reads them.
    pub fn stack_usage(&self) -> (r: (usize, usize))
        ensures
            r.0 == self.spec_size(),
            r.1 == self.spec_used(),
    {
        (self.size, self.used)
    }

    /// Whether the region has been written to its very top: the sign
    /// of a stack overflow, caught at recycling time.
    pub fn is_overflowed(&self) -> (r: bool)
        ensures
            r == (self.spec_used() == self.spec_size()),
    {
        self.used == self.size
    }
}

} // verus!
