use vstd::prelude::*;

verus! {

/// What a woken I/O wait does next: fail with the cancellation
/// error, attempt its system call (again), suspend until readiness
/// or a timer, or hand its completed result up.
#[derive(Clone, Copy, Debug, PartialEq, Eq, Structural)]
pub enum IoWaitStep {
    Fail,
    Retry,
    Park,
    Complete,
}

/// The decision core of an I/O event source's wait loop, taken at
/// each wake-up: cancellation fails the wait at once; a readiness
/// signal means the system call is attempted again; a call that
/// would have blocked parks the waiter again; and anything else is a
/// completed call whose result goes up.  The system calls themselves
/// and the selector registration stay with the driver.
pub fn io_wait_step(io_ready: bool, cancelled: bool, would_block: bool) -> (r: IoWaitStep)
    ensures
        cancelled ==> r == IoWaitStep::Fail,
        !cancelled && io_ready ==> r == IoWaitStep::Retry,
        !cancelled && !io_ready && would_block ==> r == IoWaitStep::Park,
        !cancelled && !io_ready && !would_block ==> r == IoWaitStep::Complete,
{
    if cancelled {
        IoWaitStep::Fail
    } else if io_ready {
        IoWaitStep::Retry
    } else if would_block {
        IoWaitStep::Park
    } else {
        IoWaitStep::Complete
    }
}

} // verus!
