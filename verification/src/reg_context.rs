use crate::stack::Stack;
use vstd::prelude::*;

verus! {

/// The saved register file of a suspended coroutine, reduced to what
/// the runtime's logic reads: the instruction pointer, the stack
/// pointer, and the two words the start trampoline finds in the
/// synthetic frame.  The machine-level save and restore live with the
/// driver.
#[derive(Clone, Copy, Debug, PartialEq, Eq, Structural)]
pub struct RegContext {
    pub ip: usize,
    pub sp: usize,
    pub arg: usize,
    pub start: usize,
}

impl RegContext {
    /// A context holding no saved state.
    pub fn empty() -> (r: RegContext)
        ensures
            r.ip == 0,
            r.sp == 0,
            r.arg == 0,
            r.start == 0,
    {
        RegContext { ip: 0, sp: 0, arg: 0, start: 0 }
    }

    /// A hint that the context is about to be restored; it changes
    /// nothing.
    pub fn prefetch(&self) {
    }

    /// A context primed to begin execution: the first restore lands
    /// in the trampoline `init`, with `arg` and `start` laid out in a
    /// synthetic frame at the top of `stack`.
    pub fn new(init: usize, arg: usize, start: usize, stack: &Stack) -> (r: RegContext)
        ensures
            r.ip == init,
            r.sp == stack.spec_size(),
            r.arg == arg,
            r.start == start,
    {
        let mut ctx = RegContext::empty();
        ctx.init_with(init, arg, start, stack);
        ctx
    }

    /// Primes this context as [`RegContext::new`] describes.
    pub fn init_with(&mut self, init: usize, arg: usize, start: usize, stack: &Stack)
        ensures
            final(self).ip == init,
            final(self).sp == stack.spec_size(),
            final(self).arg == arg,
            final(self).start == start,
    {
        self.ip = init;
        self.sp = stack.size();
        self.arg = arg;
        self.start = start;
    }
}

} // verus!
