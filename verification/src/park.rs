use vstd::prelude::*;

verus! {

/// The phases of the park latch: `Clean` means no token and nobody
/// waiting; `Waiting` means a coroutine is suspended here; `Unparked`
/// means a wake-up token is stored and the next park consumes it.
#[derive(Clone, Copy, Debug, PartialEq, Eq, Structural)]
pub enum ParkState {
    Clean,
    Waiting,
    Unparked,
}

/// Why a park failed: the deadline expired before the wake-up, or
/// the coroutine was cancelled.
#[derive(Clone, Copy, Debug, PartialEq, Eq, Structural)]
pub enum ParkError {
    Timeout,
    Canceled,
}

/// What a park attempt decides: go on at once (a token was waiting),
/// suspend until a wake-up arrives, or fail because the coroutine was
/// cancelled.
#[derive(Clone, Copy, Debug, PartialEq, Eq, Structural)]
pub enum ParkDecision {
    Proceed,
    Wait,
    Cancelled,
}

/// A one-shot style latch: each park blocks until a prior or later
/// unpark fires, a deadline expires, or cancellation triggers.
#[derive(Clone, Copy, Debug, PartialEq, Eq, Structural)]
pub struct Park {
    pub state: ParkState,
}

impl Park {
    /// A fresh latch with no token and nobody waiting.
    pub fn new() -> (r: Park)
        ensures
            r.state == ParkState::Clean,
    {
        Park { state: ParkState::Clean }
    }

    /// Makes the wake-up token available if it is not already.
    /// Returns whether a waiting coroutine has to be re-queued: true
    /// exactly when a waiter was suspended here.
    pub fn unpark(&mut self) -> (woke: bool)
        ensures
            final(self).state == ParkState::Unparked,
            woke == (old(self).state == ParkState::Waiting),
    {
        let woke = matches!(self.state, ParkState::Waiting);
        self.state = ParkState::Unparked;
        woke
    }

    /// Finishes a park whose attempt said `Wait`: called at the
    /// wake-up, with why the waiter woke.  A waiting park only wakes
    /// for an unpark, an expired deadline, or cancellation, and they
    /// rank in that order upside down: cancellation beats everything,
    /// then a token that arrived while waiting returns the park
    /// normally, and otherwise the deadline expired.  The latch is
    /// left clean either way.
    pub fn park_wake(&mut self, timed_out: bool, cancelled: bool) -> (r: Result<(), ParkError>)
        requires
            cancelled || timed_out || old(self).state == ParkState::Unparked,
        ensures
            final(self).state == ParkState::Clean,
            cancelled ==> r == Result::<(), ParkError>::Err(ParkError::Canceled),
            !cancelled && old(self).state == ParkState::Unparked ==> r == Result::<
                (),
                ParkError,
            >::Ok(()),
            !cancelled && old(self).state != ParkState::Unparked ==> r == Result::<
                (),
                ParkError,
            >::Err(ParkError::Timeout),
    {
        let was_unparked = matches!(self.state, ParkState::Unparked);
        self.state = ParkState::Clean;
        if cancelled {
            Err(ParkError::Canceled)
        } else if was_unparked {
            Ok(())
        } else {
            Err(ParkError::Timeout)
        }
    }

    /// One park attempt, made at a suspension point.  A cancelled
    /// coroutine never waits: the attempt fails at once, leaving the
    /// latch `Clean`.  Otherwise a stored token is consumed
    /// (`Proceed`), or the caller is told to suspend (`Wait`).
    pub fn park_attempt(&mut self, cancelled: bool) -> (r: ParkDecision)
        ensures
            cancelled ==> r == ParkDecision::Cancelled && final(self).state == ParkState::Clean,
            !cancelled && old(self).state == ParkState::Unparked ==> r == ParkDecision::Proceed
                && final(self).state == ParkState::Clean,
            !cancelled && old(self).state != ParkState::Unparked ==> r == ParkDecision::Wait
                && final(self).state == ParkState::Waiting,
    {
        if cancelled {
            self.state = ParkState::Clean;
            ParkDecision::Cancelled
        } else if matches!(self.state, ParkState::Unparked) {
            self.state = ParkState::Clean;
            ParkDecision::Proceed
        } else {
            self.state = ParkState::Waiting;
            ParkDecision::Wait
        }
    }
}

} // verus!
