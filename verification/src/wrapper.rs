use vstd::prelude::*;

verus! {

/// Makes a `Send + !Sync` value usable behind a shared fence by
/// disallowing all immutable access to it: the value can only be
/// taken back out whole.
pub struct SyncWrapper<T> {
    inner: T,
}

impl<T> SyncWrapper<T> {
    /// The wrapped value.
    pub closed spec fn spec_inner(&self) -> &T {
        &self.inner
    }

    /// Wraps a value.
    pub fn new(value: T) -> (r: Self)
        ensures
            *r.spec_inner() == value,
    {
        SyncWrapper { inner: value }
    }

    /// Unwraps the value.
    pub fn into_inner(self) -> (r: T)
        ensures
            r == *self.spec_inner(),
    {
        self.inner
    }
}

} // verus!
