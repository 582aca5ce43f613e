use vstd::prelude::*;

verus! {

/// Suspends the current stretch of execution so that other
/// coroutines can run.  Inside the scheduler a coroutine writes this
/// suspension as [`crate::coroutine_impl::Step::Yield`]; outside any
/// coroutine — the only context this free function can be reached
/// from, the scheduling context being explicit — there is nothing to
/// suspend and the call is a no-op, as on a plain thread.
pub fn yield_now() {
}

/// The event parameter passed back into a coroutine at its resume,
/// carrying the cancellation error when its last suspension failed.
/// In this runtime the parameter reaches the coroutine's body as the
/// result of the suspension itself; outside a coroutine there is
/// none.
pub fn get_co_para() -> (r: Option<crate::errors::Error>)
    ensures
        r is None,
{
    None
}

} // verus!
