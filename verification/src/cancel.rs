use crate::errors::Error;
use vstd::prelude::*;

verus! {

/// A platform token through which a pending blocking wait can be
/// aborted: here the registration is carried as a plain handle
/// number, which the driver translates to its own primitive.
#[derive(Clone, Copy, Debug, PartialEq, Eq, Structural)]
pub struct CancelIoData {
    pub handle: u64,
}

impl CancelIoData {
    /// Wraps the handle of a pending wait.
    pub fn new(handle: u64) -> (r: Self)
        ensures
            r.handle == handle,
    {
        CancelIoData { handle }
    }
}

/// The cancellation record of one coroutine: a monotone flag, set
/// once and never cleared, beside a slot for the token of a pending
/// blocking wait.
#[derive(Clone, Debug, PartialEq, Eq, Structural)]
pub struct Cancel {
    pub flag: bool,
    pub io: Option<CancelIoData>,
}

impl Cancel {
    /// A fresh record: not cancelled, no wait registered.
    pub fn new() -> (r: Self)
        ensures
            !r.flag,
            r.io is None,
    {
        Cancel { flag: false, io: None }
    }

    /// Whether cancellation has been requested.
    pub fn is_canceled(&self) -> (r: bool)
        ensures
            r == self.flag,
    {
        self.flag
    }

    /// Requests cancellation.  The flag is monotone: it is set here
    /// and no operation of this type resets it.  Any registered wait
    /// token is taken out and handed back so the caller can abort the
    /// pending wait.
    pub fn cancel(&mut self) -> (r: Option<CancelIoData>)
        ensures
            final(self).flag,
            r == old(self).io,
            final(self).io is None,
    {
        self.flag = true;
        self.io.take()
    }

    /// Registers the token of a pending blocking wait.
    pub fn set_io(&mut self, data: CancelIoData)
        ensures
            final(self).io == Some(data),
            final(self).flag == old(self).flag,
    {
        self.io = Some(data);
    }

    /// Clears a registered wait token after the wait completed.
    pub fn clear_io(&mut self)
        ensures
            final(self).io is None,
            final(self).flag == old(self).flag,
    {
        self.io = None;
    }

    /// The cooperative check made at every suspension point: fails
    /// with a cancellation error exactly when the flag is set.
    pub fn check_cancel(&self) -> (r: Result<(), Error>)
        ensures
            r is Err <==> self.flag,
    {
        if self.flag {
            Err(crate::errors::new("Canceled".to_owned()))
        } else {
            Ok(())
        }
    }
}

/// Cancellation, once requested, is visible at every later
/// suspension point: a set flag makes `check_cancel` fail, and no
/// operation of [`Cancel`] resets a set flag (`cancel` leaves it set,
/// `set_io` and `clear_io` carry it over unchanged).
pub proof fn lemma_cancel_visibility(c: Cancel)
    requires
        c.flag,
    ensures
        forall|r: Result<(), Error>| call_ensures(Cancel::check_cancel, (&c,), r) ==> r is Err,
{
}

} // verus!
