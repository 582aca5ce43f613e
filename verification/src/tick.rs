use crate::errors::Error;
use crate::time::Span;
use std::sync::Arc;
use vstd::prelude::*;

verus! {

/// When a ticker with period `p` is due next, from the clock reading
/// `now`: one period later, with both the period's milliseconds and
/// the sum pinned to the clock's ceiling rather than wrapping.
pub open spec fn spec_tick_deadline(p: Span, now: u64) -> int {
    let period_ms: int = if p.secs >= u64::MAX as int / 1000 || p.secs * 1000 + p.nanos
        / 1_000_000 > u64::MAX {
        u64::MAX as int
    } else {
        p.secs * 1000 + p.nanos / 1_000_000
    };
    if period_ms > u64::MAX - now {
        u64::MAX as int
    } else {
        now + period_ms
    }
}

/// A Ticker delivers ticks of a clock at intervals: its driver
/// sleeps one period, emits the current time, and asks again.  The
/// period is the whole state; a zero period means the ticker is
/// stopped and no more ticks are due.
pub struct Ticker {
    period: Span,
}

impl Ticker {
    /// The current period; zero once stopped.
    pub closed spec fn spec_period(&self) -> Span {
        self.period
    }

    /// A ticker with period `d`.
    pub fn new(d: Span) -> (r: Ticker)
        ensures
            r.spec_period() == d,
    {
        Ticker { period: d }
    }

    /// A ticker with period `d`, behind a shared handle.
    pub fn new_arc(d: Span) -> (r: Arc<Ticker>)
        ensures
            r.spec_period() == d,
    {
        Arc::new(Ticker { period: d })
    }

    /// Stop turns off the ticker: the period becomes zero, so no
    /// more ticks will be due.  The delivery channel stays open, so
    /// a concurrent reader never sees an erroneous tick.
    pub fn stop(&mut self) -> (r: Result<(), Error>)
        ensures
            final(self).spec_period().secs == 0,
            final(self).spec_period().nanos == 0,
            r is Ok,
    {
        self.period = Span { secs: 0, nanos: 0 };
        Ok(())
    }

    /// Reset stops the ticker and gives it the period `d`: the next
    /// tick is due one new period from now.
    pub fn reset(&mut self, d: Span) -> (r: Result<(), Error>)
        ensures
            final(self).spec_period() == d,
            r is Ok,
    {
        self.period = d;
        Ok(())
    }

    /// When the next tick is due, in milliseconds of the driver's
    /// clock: one period past `now`, pinned to the clock's ceiling
    /// rather than wrapping; or never, once the ticker is stopped.
    pub fn next_deadline(&self, now: u64) -> (r: Option<u64>)
        ensures
            r is None <==> (self.spec_period().secs == 0 && self.spec_period().nanos == 0),
            r matches Some(d) ==> d == spec_tick_deadline(self.spec_period(), now),
    {
        if self.period.secs == 0 && self.period.nanos == 0 {
            return None;
        }
        let period_ms: u64 = if self.period.secs >= u64::MAX / 1000 {
            u64::MAX
        } else {
            proof {
                vstd::arithmetic::div_mod::lemma_fundamental_div_mod(u64::MAX as int, 1000);
                vstd::arithmetic::div_mod::lemma_mod_division_less_than_divisor(
                    u64::MAX as int,
                    1000,
                );
                assert(self.period.secs * 1000 <= 1000 * (u64::MAX as int / 1000) - 1000)
                    by (nonlinear_arith)
                    requires
                        self.period.secs < u64::MAX as int / 1000,
                ;
            }
            let whole: u64 = self.period.secs * 1000;
            let frac: u64 = (self.period.nanos / 1_000_000) as u64;
            if frac > u64::MAX - whole {
                u64::MAX
            } else {
                whole + frac
            }
        };
        let d: u64 = if period_ms > u64::MAX - now {
            u64::MAX
        } else {
            now + period_ms
        };
        Some(d)
    }
}

} // verus!
