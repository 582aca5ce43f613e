use crate::cancel::Cancel;
use crate::config::DEFAULT_STACK_SIZE;
use crate::park::Park;
use crate::stack::Stack;
use vstd::prelude::*;

verus! {

/// One suspension of a coroutine's body: a bare yield back to the
/// scheduler, or a timed sleep in milliseconds of virtual time.
#[derive(Clone, Copy, Debug, PartialEq, Eq, Structural)]
pub enum Step {
    Yield,
    Sleep(u64),
}

/// How a coroutine's body ends: returning a value, or unwinding with
/// a panic payload.
#[derive(Clone, Debug)]
pub enum TaskEnd<T> {
    Return(T),
    Panic(String),
}

/// A coroutine body, written out as data: the suspensions it makes,
/// how it ends, and how many stack bytes it touches at its deepest.
/// The scheduler executes such bodies; a body with side effects stays
/// with the driver, which replays its decisions through one of these.
#[derive(Clone, Debug)]
pub struct TaskSpec<T> {
    pub steps: Vec<Step>,
    pub end: TaskEnd<T>,
    pub stack_need: usize,
}

/// Where a coroutine stands in its lifecycle: runnable, waiting on a
/// timer, or completed.
#[derive(Clone, Copy, Debug, PartialEq, Eq, Structural)]
pub enum CoStatus {
    Ready,
    Suspended,
    Done,
}

/// Why a join resolved without a value: the coroutine was cancelled,
/// or its body panicked and this is the payload.
#[derive(Clone, Debug)]
pub enum JoinError {
    Cancelled,
    Panicked(String),
}

/// A handle to a coroutine: its name, its stack size, and its park
/// and cancellation records.
#[derive(Clone, Debug)]
pub struct Coroutine {
    pub name: Option<String>,
    pub stack_size: usize,
    pub park: Park,
    pub cancel: Cancel,
}

impl Coroutine {
    /// A fresh handle with a clean park gate and no cancellation.
    pub fn new(name: Option<String>, stack_size: usize) -> (r: Coroutine)
        ensures
            r.name == name,
            r.stack_size == stack_size,
            r.park.state == crate::park::ParkState::Clean,
            !r.cancel.flag,
            r.cancel.io is None,
    {
        Coroutine { name, stack_size, park: Park::new(), cancel: Cancel::new() }
    }

    /// The coroutine's stack size.
    pub fn stack_size(&self) -> (r: usize)
        ensures
            r == self.stack_size,
    {
        self.stack_size
    }

    /// Makes the handle's park token available if it is not already.
    pub fn unpark(&mut self)
        ensures
            final(self).park.state == crate::park::ParkState::Unparked,
            final(self).cancel == old(self).cancel,
            final(self).name == old(self).name,
            final(self).stack_size == old(self).stack_size,
    {
        let _ = self.park.unpark();
    }

    /// Requests cancellation of the coroutine: the flag is set for
    /// good, and any registered blocking wait loses its token so the
    /// driver can abort it.
    pub fn cancel(&mut self)
        ensures
            final(self).cancel.flag,
            final(self).cancel.io is None,
            final(self).park == old(self).park,
            final(self).name == old(self).name,
            final(self).stack_size == old(self).stack_size,
    {
        let _ = self.cancel.cancel();
    }

    /// The coroutine's name, if it has one.
    pub fn name(&self) -> (r: Option<&str>)
        ensures
            r is Some <==> self.name is Some,
            r matches Some(s) ==> self.name matches Some(n) && s@ == n@,
    {
        match &self.name {
            Some(s) => Some(s.as_str()),
            None => None,
        }
    }
}

/// A coroutine as the scheduler owns it: the handle, the body with
/// its progress mark, the pinned worker, the stack accounting, and
/// the join state.
pub struct CoroutineImpl<T> {
    /// The worker the coroutine is pinned to after its first resume.
    pub worker_thread_id: Option<usize>,
    /// The public handle.
    pub handle: Coroutine,
    /// The remaining body: `steps[pc..]` have not run yet.
    pub steps: Vec<Step>,
    /// How many suspensions have already run.
    pub pc: usize,
    /// The pending ending; taken exactly once, at completion.
    pub end: Option<TaskEnd<T>>,
    /// How many stack bytes the body touches at its deepest.
    pub stack_need: usize,
    /// The stack region and its high-water mark.
    pub stack: Stack,
    /// The size of the compacted copy of the live stack bytes, while
    /// the coroutine is parked with its full region given back to
    /// the shell cache.
    pub reduce: Option<usize>,
    /// Where the coroutine stands in its lifecycle.
    pub status: CoStatus,
    /// The join slot, written exactly once, at completion.
    pub slot: Option<Result<T, JoinError>>,
    /// Whether the join slot has been claimed through a join handle.
    pub joined: bool,
}

impl<T> CoroutineImpl<T> {
    /// The scheduling work the coroutine still owes: its pending
    /// suspensions, and one more step for its completion.
    pub open spec fn spec_work(&self) -> nat {
        (if self.pc <= self.steps@.len() {
            (self.steps@.len() - self.pc) as nat
        } else {
            0nat
        }) + if self.status == CoStatus::Done {
            0nat
        } else {
            1nat
        }
    }
}

impl<T> CoroutineImpl<T> {
    /// Compacts the stack of an idle coroutine: the live byte count
    /// is kept as the reduced copy, the full region is handed back
    /// (for the shell cache), and the coroutine keeps a fresh, empty
    /// region of the same size in its place.  A coroutine that
    /// already holds a reduced copy is left alone.  This is what
    /// lets a parked coroutine cost a compacted copy instead of a
    /// full stack.
    pub fn stack_reduce(&mut self) -> (released: Option<Stack>)
        ensures
            final(self).worker_thread_id == old(self).worker_thread_id,
            final(self).handle == old(self).handle,
            final(self).steps@ == old(self).steps@,
            final(self).pc == old(self).pc,
            final(self).end == old(self).end,
            final(self).stack_need == old(self).stack_need,
            final(self).status == old(self).status,
            final(self).slot == old(self).slot,
            final(self).joined == old(self).joined,
            old(self).reduce is Some ==> released is None && final(self).reduce == old(self).reduce && final(self).stack == old(self).stack,
            old(self).reduce is None ==> released == Some(old(self).stack) && final(self).reduce
                == Some(old(self).stack.spec_used()) && final(self).stack.spec_size() == old(self).stack.spec_size() && final(self).stack.spec_used() == 0,
    {
        if self.reduce.is_some() {
            return None;
        }
        let (size, used) = self.stack.stack_usage();
        self.reduce = Some(used);
        let released = self.stack;
        self.stack = Stack::new(size);
        Some(released)
    }

    /// The inverse of [`CoroutineImpl::stack_reduce`]: takes a
    /// region from the shell cache and writes the reduced copy's
    /// bytes back onto it, so the coroutine can run again.  With no
    /// reduced copy pending, the offered region is handed back
    /// unused.
    pub fn stack_restore(&mut self, stack: Stack) -> (unused: Option<Stack>)
        ensures
            final(self).worker_thread_id == old(self).worker_thread_id,
            final(self).handle == old(self).handle,
            final(self).steps@ == old(self).steps@,
            final(self).pc == old(self).pc,
            final(self).end == old(self).end,
            final(self).stack_need == old(self).stack_need,
            final(self).status == old(self).status,
            final(self).slot == old(self).slot,
            final(self).joined == old(self).joined,
            final(self).reduce is None,
            old(self).reduce is None ==> unused == Some(stack) && final(self).stack == old(self).stack,
            old(self).reduce matches Some(n) ==> unused is None && final(self).stack.spec_size()
                == stack.spec_size() && final(self).stack.spec_used() == vstd::math::max(
                stack.spec_used() as int,
                vstd::math::min(n as int, stack.spec_size() as int),
            ),
    {
        match self.reduce {
            None => Some(stack),
            Some(n) => {
                self.reduce = None;
                self.stack = stack;
                self.stack.record_use(n);
                None
            },
        }
    }
}

/// The verdict of the recycling gate that every completed coroutine
/// passes through.
#[derive(Clone, Copy, Debug, PartialEq, Eq, Structural)]
pub enum DropVerdict {
    Recycled,
    Overflowed,
}

/// The sentinel event source that a finished coroutine yields: it
/// consumes the coroutine and recycles its stack.
pub struct Done;

impl Done {
    /// Consumes a finished coroutine.  The verdict is `Overflowed`
    /// exactly when the stack's high-water mark reaches its capacity:
    /// a coroutine that used its whole stack is assumed to have
    /// silently overflowed, and the driver must abort the process
    /// rather than recycle the stack.
    pub fn drop_coroutine<T>(co: CoroutineImpl<T>) -> (r: DropVerdict)
        ensures
            r == DropVerdict::Overflowed <==> co.stack.spec_used() == co.stack.spec_size(),
    {
        if co.stack.is_overflowed() {
            DropVerdict::Overflowed
        } else {
            DropVerdict::Recycled
        }
    }
}

/// A coroutine factory carrying the optional name and stack size that
/// the spawned coroutine will get.
#[derive(Clone, Debug)]
pub struct Builder {
    pub name: Option<String>,
    pub stack_size: Option<usize>,
}

impl Builder {
    /// The base configuration: no name, the default stack size.
    pub fn new() -> (r: Builder)
        ensures
            r.name is None,
            r.stack_size is None,
    {
        Builder { name: None, stack_size: None }
    }

    /// Names the coroutine-to-be.
    pub fn name(self, name: String) -> (r: Builder)
        ensures
            r.name == Some(name),
            r.stack_size == self.stack_size,
    {
        Builder { name: Some(name), stack_size: self.stack_size }
    }

    /// Sets the stack size for the coroutine-to-be.
    pub fn stack_size(self, size: usize) -> (r: Builder)
        ensures
            r.stack_size == Some(size),
            r.name == self.name,
    {
        Builder { name: self.name, stack_size: Some(size) }
    }

    /// The stack size the spawned coroutine will get.
    pub open spec fn spec_chosen_stack(&self) -> usize {
        match self.stack_size {
            Some(s) => s,
            None => DEFAULT_STACK_SIZE,
        }
    }
}

} // verus!
