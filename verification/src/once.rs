use vstd::prelude::*;

verus! {

/// Once is an object that will perform exactly one action.
pub struct Once {
    done: bool,
}

impl Once {
    /// A fresh latch whose action has not run yet.
    pub fn new() -> (r: Self)
        ensures
            !r.is_done(),
    {
        Once { done: false }
    }

    /// Whether the one action has already been performed.
    pub closed spec fn is_done(&self) -> bool {
        self.done
    }

    /// Calls the function `f` if and only if this is the first call
    /// on this value: on a first call `f` runs to completion, on any
    /// later call it does not run at all.  Afterwards the latch
    /// stays shut either way.
    pub fn call<F: FnOnce()>(&mut self, f: F)
        requires
            !old(self).is_done() ==> f.requires(()),
        ensures
            final(self).is_done(),
            !old(self).is_done() ==> f.ensures((), ()),
    {
        if !self.done {
            self.do_slow(f);
        }
    }

    /// The slow path: shuts the latch, then runs the action.
    fn do_slow<F: FnOnce()>(&mut self, f: F)
        requires
            !old(self).is_done() ==> f.requires(()),
            !old(self).is_done(),
        ensures
            final(self).is_done(),
            f.ensures((), ()),
    {
        if !self.done {
            self.done = true;
            f();
        }
    }
}

} // verus!
