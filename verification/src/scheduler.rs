use crate::coroutine_impl::{
    Builder, CoStatus, Coroutine, CoroutineImpl, JoinError, Step, TaskEnd, TaskSpec,
};
use crate::stack::Stack;
use crate::timer::TimerWheel;
use std::collections::VecDeque;
use vstd::prelude::*;

verus! {

/// What one scheduling step did: nothing (the run queue was empty),
/// or it resumed the coroutine named in the event, which yielded,
/// went to sleep on a timer, completed, completed with its stack
/// written to the top (the overflow gate), or left cancelled.
#[derive(Clone, Copy, Debug, PartialEq, Eq, Structural)]
pub enum RunEvent {
    Idle,
    Yielded(usize),
    Slept(usize),
    Completed(usize),
    Overflowed(usize),
    CancelledOut(usize),
}

/// The scheduler: every coroutine it has spawned, a global first-in
/// first-out run queue of the runnable ones, one timer wheel per
/// worker, and a virtual clock in milliseconds.
pub struct Scheduler<T> {
    pub cos: Vec<CoroutineImpl<T>>,
    pub queue: VecDeque<usize>,
    pub wheels: Vec<TimerWheel>,
    pub now: u64,
    pub workers: usize,
}

/// A handle through which the spawner receives what the coroutine's
/// body ends with.
pub struct JoinHandle<T> {
    pub id: usize,
    pub marker: core::marker::PhantomData<T>,
}

impl<T> Scheduler<T> {
    /// Whether `id` has a pending timer entry on some wheel other
    /// than entry `skip_j` of wheel `skip_w`.
    pub open spec fn in_wheels_except(&self, id: int, skip_w: int, skip_j: int) -> bool {
        exists|w: int, j: int|
            0 <= w < self.wheels@.len() && 0 <= j < self.wheels@[w].spec_entries().len() && !(w
                == skip_w && j == skip_j) && (#[trigger] self.wheels@[w].spec_entries()[j]).token
                == id
    }

    /// Whether `id` has a pending timer entry on some wheel.
    pub open spec fn in_wheels(&self, id: int) -> bool {
        exists|w: int, j: int|
            0 <= w < self.wheels@.len() && 0 <= j < self.wheels@[w].spec_entries().len()
                && (#[trigger] self.wheels@[w].spec_entries()[j]).token == id
    }

    /// The well-formedness of the scheduler, with the queue
    /// membership demand waived for the coroutine `skip` (pass -1 to
    /// waive nothing): each runnable coroutine is queued exactly
    /// once, each sleeping one sits on its pinned worker's wheel
    /// exactly once, join slots are written at completion and not
    /// before, and the wheels never hold a deadline behind the clock.
    pub open spec fn wf_at(&self, skip: int) -> bool {
        &&& self.workers >= 1
        &&& self.wheels@.len() == self.workers
        &&& (forall|w: int|
            0 <= w < self.wheels@.len() ==> (#[trigger] self.wheels@[w]).wf()
                && self.wheels@[w].spec_last_fired() <= self.now)
        &&& (forall|i: int|
            0 <= i < self.queue@.len() ==> (#[trigger] self.queue@[i]) < self.cos@.len()
                && self.cos@[self.queue@[i] as int].status == CoStatus::Ready)
        &&& self.queue@.no_duplicates()
        &&& (forall|w: int, j: int|
            0 <= w < self.wheels@.len() && 0 <= j < self.wheels@[w].spec_entries().len() ==> {
                let tok = (#[trigger] self.wheels@[w].spec_entries()[j]).token;
                &&& (tok as int) < self.cos@.len()
                &&& self.cos@[tok as int].status == CoStatus::Suspended
                &&& self.cos@[tok as int].worker_thread_id == Some(w as usize)
            })
        &&& (forall|w: int, j: int, w2: int, j2: int|
            0 <= w < self.wheels@.len() && 0 <= j < self.wheels@[w].spec_entries().len() && 0
                <= w2 < self.wheels@.len() && 0 <= j2 < self.wheels@[w2].spec_entries().len() && (w
                != w2 || j != j2) ==> (#[trigger] self.wheels@[w].spec_entries()[j]).token != (
            #[trigger] self.wheels@[w2].spec_entries()[j2]).token)
        &&& (forall|id: int|
            0 <= id < self.cos@.len() && id != skip ==> match (
            #[trigger] self.cos@[id]).status {
                CoStatus::Ready => self.queue@.contains(id as usize),
                CoStatus::Suspended => self.in_wheels(id),
                CoStatus::Done => true,
            })
        &&& (forall|id: int|
            0 <= id < self.cos@.len() && (#[trigger] self.cos@[id]).status != CoStatus::Done
                ==> self.cos@[id].slot is None && !self.cos@[id].joined && self.cos@[id].end
                is Some && self.cos@[id].pc <= self.cos@[id].steps@.len())
        &&& (forall|id: int|
            0 <= id < self.cos@.len() && (#[trigger] self.cos@[id]).status == CoStatus::Done
                ==> self.cos@[id].end is None && (self.cos@[id].joined || self.cos@[id].slot
                is Some))
        &&& (forall|id: int|
            0 <= id < self.cos@.len() ==> match (#[trigger] self.cos@[id]).worker_thread_id {
                Some(w) => w < self.workers,
                None => true,
            })
    }

    /// Full well-formedness.
    pub open spec fn wf(&self) -> bool {
        self.wf_at(-1)
    }

    /// The scheduling work still owed across all coroutines.
    pub open spec fn spec_total_work(&self) -> nat {
        total_work(self.cos@)
    }

    /// The number of pending timer entries across all wheels.
    pub open spec fn spec_timer_load(&self) -> nat {
        timer_load(self.wheels@)
    }

    /// A fresh scheduler with `workers` workers, nothing spawned, an
    /// empty queue, and the clock at zero.
    pub fn new(workers: usize) -> (r: Scheduler<T>)
        requires
            workers >= 1,
        ensures
            r.wf(),
            r.cos@.len() == 0,
            r.queue@.len() == 0,
            r.now == 0,
            r.workers == workers,
            r.spec_total_work() == 0,
            r.spec_timer_load() == 0,
    {
        let mut wheels: Vec<TimerWheel> = Vec::new();
        let mut w: usize = 0;
        while w < workers
            invariant
                w <= workers,
                wheels@.len() == w,
                forall|i: int|
                    0 <= i < wheels@.len() ==> (#[trigger] wheels@[i]).wf()
                        && wheels@[i].spec_last_fired() == 0 && wheels@[i].spec_entries().len()
                        == 0,
            decreases workers - w,
        {
            wheels.push(TimerWheel::new());
            w = w + 1;
        }
        proof {
            lemma_timer_load_all_empty(wheels@);
        }
        Scheduler { cos: Vec::new(), queue: VecDeque::new(), wheels, now: 0, workers }
    }
}

/// The scheduling work owed by a sequence of coroutines.
pub open spec fn total_work<T>(s: Seq<CoroutineImpl<T>>) -> nat
    decreases s.len(),
{
    if s.len() == 0 {
        0
    } else {
        total_work(s.drop_last()) + s.last().spec_work()
    }
}

/// The pending timer entries held by a sequence of wheels.
pub open spec fn timer_load(s: Seq<TimerWheel>) -> nat
    decreases s.len(),
{
    if s.len() == 0 {
        0
    } else {
        timer_load(s.drop_last()) + s.last().spec_entries().len()
    }
}

/// Replacing one coroutine changes the total work by that
/// coroutine's difference alone.
pub proof fn lemma_total_work_update<T>(s: Seq<CoroutineImpl<T>>, i: int, c: CoroutineImpl<T>)
    requires
        0 <= i < s.len(),
    ensures
        total_work(s.update(i, c)) + s[i].spec_work() == total_work(s) + c.spec_work(),
    decreases s.len(),
{
    if s.len() > 0 {
        if i == s.len() - 1 {
            assert(s.update(i, c).drop_last() =~= s.drop_last());
            assert(s.update(i, c).last() == c);
        } else {
            assert(s.update(i, c).drop_last() =~= s.drop_last().update(i, c));
            assert(s.update(i, c).last() == s.last());
            lemma_total_work_update(s.drop_last(), i, c);
        }
    }
}

/// Appending one coroutine adds its work to the total.
pub proof fn lemma_total_work_push<T>(s: Seq<CoroutineImpl<T>>, c: CoroutineImpl<T>)
    ensures
        total_work(s.push(c)) == total_work(s) + c.spec_work(),
{
    assert(s.push(c).drop_last() =~= s);
    assert(s.push(c).last() == c);
}

/// Replacing one wheel changes the timer load by that wheel's
/// difference alone.
pub proof fn lemma_timer_load_update(s: Seq<TimerWheel>, i: int, w: TimerWheel)
    requires
        0 <= i < s.len(),
    ensures
        timer_load(s.update(i, w)) + s[i].spec_entries().len() == timer_load(s)
            + w.spec_entries().len(),
    decreases s.len(),
{
    if s.len() > 0 {
        if i == s.len() - 1 {
            assert(s.update(i, w).drop_last() =~= s.drop_last());
            assert(s.update(i, w).last() == w);
        } else {
            assert(s.update(i, w).drop_last() =~= s.drop_last().update(i, w));
            assert(s.update(i, w).last() == s.last());
            lemma_timer_load_update(s.drop_last(), i, w);
        }
    }
}

/// A sequence of empty wheels holds no pending entries.
pub proof fn lemma_timer_load_all_empty(s: Seq<TimerWheel>)
    requires
        forall|i: int| 0 <= i < s.len() ==> (#[trigger] s[i]).spec_entries().len() == 0,
    ensures
        timer_load(s) == 0,
    decreases s.len(),
{
    if s.len() > 0 {
        lemma_timer_load_all_empty(s.drop_last());
    }
}


/// Exclusive access to one coroutine of the table.
fn co_mut<T>(v: &mut Vec<CoroutineImpl<T>>, i: usize) -> (r: &mut CoroutineImpl<T>)
    requires
        i < old(v)@.len(),
    ensures
        *r == old(v)@[i as int],
        final(v)@ == old(v)@.update(i as int, *final(r)),
{
    &mut v[i]
}

/// Exclusive access to one wheel of the table.
fn wheel_mut(v: &mut Vec<TimerWheel>, i: usize) -> (r: &mut TimerWheel)
    requires
        i < old(v)@.len(),
    ensures
        *r == old(v)@[i as int],
        final(v)@ == old(v)@.update(i as int, *final(r)),
{
    &mut v[i]
}

/// The virtual clock reading one span of `b` after `a`, pinned to
/// the clock's ceiling rather than wrapping.
pub open spec fn spec_clock_after(a: u64, b: u64) -> u64 {
    if a + b > u64::MAX {
        u64::MAX
    } else {
        (a + b) as u64
    }
}

/// Addition on the virtual clock, pinned to the clock's ceiling
/// rather than wrapping.
fn sat_add(a: u64, b: u64) -> (r: u64)
    ensures
        r >= a,
        r == spec_clock_after(a, b),
{
    if b > u64::MAX - a {
        u64::MAX
    } else {
        a + b
    }
}

impl Builder {
    /// Spawns a coroutine running `task`, with this builder's name
    /// and stack size, onto the back of the scheduler's run queue,
    /// and returns the handle on which its ending will arrive.
    pub fn spawn<T>(self, s: &mut Scheduler<T>, task: TaskSpec<T>) -> (r: JoinHandle<T>)
        requires
            old(s).wf(),
            old(s).cos@.len() < 1_000_000_000,
        ensures
            final(s).wf(),
            r.id == old(s).cos@.len(),
            final(s).cos@.len() == old(s).cos@.len() + 1,
            final(s).queue@ == old(s).queue@.push(r.id),
            final(s).wheels@ == old(s).wheels@,
            final(s).now == old(s).now,
            final(s).workers == old(s).workers,
            forall|i: int| 0 <= i < old(s).cos@.len() ==> final(s).cos@[i] == old(s).cos@[i],
            final(s).cos@[r.id as int].status == CoStatus::Ready,
            final(s).cos@[r.id as int].pc == 0,
            final(s).cos@[r.id as int].steps@ == task.steps@,
            final(s).cos@[r.id as int].end == Some(task.end),
            final(s).cos@[r.id as int].stack_need == task.stack_need,
            final(s).cos@[r.id as int].handle.cancel.flag == false,
            final(s).cos@[r.id as int].worker_thread_id is None,
            final(s).cos@[r.id as int].slot is None,
            !final(s).cos@[r.id as int].joined,
            final(s).cos@[r.id as int].handle.name == self.name,
            final(s).cos@[r.id as int].handle.stack_size == self.spec_chosen_stack(),
            final(s).spec_total_work() == old(s).spec_total_work() + task.steps@.len() + 1,
            final(s).spec_timer_load() == old(s).spec_timer_load(),
    {
        let id = s.cos.len();
        let stack_size = match self.stack_size {
            Some(v) => v,
            None => crate::config::DEFAULT_STACK_SIZE,
        };
        let handle = Coroutine::new(self.name, stack_size);
        let co = CoroutineImpl {
            worker_thread_id: None,
            handle,
            steps: task.steps,
            pc: 0,
            end: Some(task.end),
            stack_need: task.stack_need,
            stack: Stack::new(stack_size),
            reduce: None,
            status: CoStatus::Ready,
            slot: None,
            joined: false,
        };
        proof {
            lemma_total_work_push(s.cos@, co);
        }
        s.cos.push(co);
        s.queue.push_back(id);
        proof {
            assert forall|i: int, j: int|
                0 <= i < s.queue@.len() && 0 <= j < s.queue@.len() && i != j implies s.queue@[i]
                != s.queue@[j] by {
                if i < s.queue@.len() - 1 && j < s.queue@.len() - 1 {
                    assert(old(s).queue@.no_duplicates());
                }
            }
            assert(s.queue@.no_duplicates());
            assert forall|cid: int|
                0 <= cid < s.cos@.len() implies match (#[trigger] s.cos@[cid]).status {
                CoStatus::Ready => s.queue@.contains(cid as usize),
                CoStatus::Suspended => s.in_wheels(cid),
                CoStatus::Done => true,
            } by {
                if cid < old(s).cos@.len() {
                    match old(s).cos@[cid].status {
                        CoStatus::Ready => {
                            let qi = choose|qi: int|
                                0 <= qi < old(s).queue@.len() && old(s).queue@[qi]
                                    == cid as usize;
                            assert(s.queue@[qi] == cid as usize);
                        },
                        CoStatus::Suspended => {
                            assert(old(s).in_wheels(cid));
                        },
                        CoStatus::Done => {},
                    }
                } else {
                    assert(s.queue@[s.queue@.len() - 1] == cid as usize);
                }
            }
        }
        JoinHandle { id, marker: core::marker::PhantomData }
    }
}

/// Spawns a coroutine with the default builder.
pub fn spawn<T>(s: &mut Scheduler<T>, task: TaskSpec<T>) -> (r: JoinHandle<T>)
    requires
        old(s).wf(),
        old(s).cos@.len() < 1_000_000_000,
    ensures
        final(s).wf(),
        r.id == old(s).cos@.len(),
        final(s).cos@.len() == old(s).cos@.len() + 1,
        final(s).queue@ == old(s).queue@.push(r.id),
        final(s).wheels@ == old(s).wheels@,
        final(s).now == old(s).now,
        final(s).workers == old(s).workers,
        final(s).cos@[r.id as int].end == Some(task.end),
        final(s).cos@[r.id as int].handle.cancel.flag == false,
        final(s).cos@[r.id as int].status == CoStatus::Ready,
        final(s).cos@[r.id as int].pc == 0,
        final(s).cos@[r.id as int].steps@ == task.steps@,
        final(s).spec_total_work() == old(s).spec_total_work() + task.steps@.len() + 1,
        final(s).spec_timer_load() == old(s).spec_timer_load(),
        forall|i: int| 0 <= i < old(s).cos@.len() ==> final(s).cos@[i] == old(s).cos@[i],
{
    Builder::new().spawn(s, task)
}


impl<T> Scheduler<T> {
    /// Resumes the runnable coroutine `id`, which the caller has
    /// taken off the run queue.  A cancelled coroutine never runs its
    /// body again: it completes at once with the cancellation error.
    /// Otherwise its next suspension runs: a yield re-queues it at
    /// the back, a sleep moves it onto its worker's timer wheel, and
    /// a coroutine out of suspensions completes, writing its ending
    /// into the join slot, exactly once, and passing the stack
    /// overflow gate.  The first resume pins the coroutine to a
    /// worker; every later resume stays on that worker.
    fn dispatch(&mut self, id: usize) -> (r: RunEvent)
        requires
            old(self).wf_at(id as int),
            id < old(self).cos@.len(),
            old(self).cos@[id as int].status == CoStatus::Ready,
            !old(self).queue@.contains(id),
            old(self).queue@.len() < 1_000_000_000,
            old(self).spec_timer_load() < 1_000_000_000,
        ensures
            final(self).wf(),
            final(self).now == old(self).now,
            final(self).workers == old(self).workers,
            final(self).cos@.len() == old(self).cos@.len(),
            forall|i: int|
                0 <= i < old(self).cos@.len() && i != id ==> final(self).cos@[i] == old(self).cos@[i],
            final(self).spec_total_work() + 1 == old(self).spec_total_work(),
            final(self).cos@[id as int].handle.cancel.flag == old(self).cos@[id
                as int].handle.cancel.flag,
            r != RunEvent::Idle,
            (r == RunEvent::CancelledOut(id) <==> old(self).cos@[id as int].handle.cancel.flag),
            r == RunEvent::CancelledOut(id) ==> final(self).cos@[id as int].status
                == CoStatus::Done && final(self).cos@[id as int].slot == Some(
                Result::<T, JoinError>::Err(JoinError::Cancelled),
            ) && final(self).queue@ == old(self).queue@ && final(self).wheels@ == old(self).wheels@,
            ((r == RunEvent::Completed(id) || r == RunEvent::Overflowed(id)) <==> (!old(self).cos@[id as int].handle.cancel.flag && old(self).cos@[id as int].pc == old(self).cos@[id as int].steps@.len())),
            (r == RunEvent::Completed(id) || r == RunEvent::Overflowed(id)) ==> final(self).cos@[id as int].status == CoStatus::Done && final(self).queue@ == old(self).queue@
                && final(self).wheels@ == old(self).wheels@ && (old(self).cos@[id as int].end
                matches Some(e) ==> final(self).cos@[id as int].slot == Some(
                match e {
                    TaskEnd::Return(v) => Result::<T, JoinError>::Ok(v),
                    TaskEnd::Panic(m) => Result::<T, JoinError>::Err(JoinError::Panicked(m)),
                },
            )),
            (r == RunEvent::Completed(id) || r == RunEvent::Overflowed(id)) ==> (r
                == RunEvent::Overflowed(id) <==> final(self).cos@[id as int].stack.spec_used()
                == final(self).cos@[id as int].stack.spec_size()),
            r == RunEvent::Yielded(id) <==> (!old(self).cos@[id as int].handle.cancel.flag
                && old(self).cos@[id as int].pc < old(self).cos@[id as int].steps@.len() && old(self).cos@[id as int].steps@[old(self).cos@[id as int].pc as int] is Yield),
            r == RunEvent::Slept(id) <==> (!old(self).cos@[id as int].handle.cancel.flag && old(self).cos@[id as int].pc < old(self).cos@[id as int].steps@.len() && old(self).cos@[id
                as int].steps@[old(self).cos@[id as int].pc as int] is Sleep),
            r == RunEvent::Yielded(id) ==> final(self).queue@ == old(self).queue@.push(id)
                && final(self).wheels@ == old(self).wheels@ && final(self).cos@[id as int].status
                == CoStatus::Ready && final(self).cos@[id as int].pc == old(self).cos@[id
                as int].pc + 1,
            r == RunEvent::Slept(id) ==> final(self).queue@ == old(self).queue@ && final(self).spec_timer_load() == old(self).spec_timer_load() + 1 && final(self).cos@[id
                as int].status == CoStatus::Suspended && final(self).cos@[id as int].pc == old(self).cos@[id as int].pc + 1,
            r == RunEvent::Slept(id) ==> (old(self).cos@[id as int].steps@[old(self).cos@[id
                as int].pc as int] matches Step::Sleep(d) && final(self).cos@[id
                as int].worker_thread_id matches Some(w) && (w as int) < old(self).wheels@.len()
                && final(self).wheels@ == old(self).wheels@.update(
                w as int,
                final(self).wheels@[w as int],
            ) && final(self).wheels@[w as int].spec_entries() == old(self).wheels@[w
                as int].spec_entries().push(
                crate::timer::TimerEntry {
                    deadline: spec_clock_after(old(self).now, d),
                    token: id as u64,
                },
            ) && final(self).wheels@[w as int].spec_last_fired() == old(self).wheels@[w
                as int].spec_last_fired()),
            !(r == RunEvent::Slept(id)) ==> final(self).spec_timer_load() == old(self).spec_timer_load(),
            (r == RunEvent::Yielded(id) || r == RunEvent::Slept(id) || r == RunEvent::Completed(
                id,
            ) || r == RunEvent::Overflowed(id) || r == RunEvent::CancelledOut(id)),
            !old(self).cos@[id as int].handle.cancel.flag ==> final(self).cos@[id
                as int].worker_thread_id is Some,
            old(self).cos@[id as int].worker_thread_id matches Some(w) ==> final(self).cos@[id
                as int].worker_thread_id == Some(w),
            final(self).cos@[id as int].end is Some ==> final(self).cos@[id as int].end == old(self).cos@[id as int].end,
            final(self).cos@[id as int].status != CoStatus::Done ==> final(self).cos@[id
                as int].end == old(self).cos@[id as int].end && final(self).cos@[id as int].slot
                == old(self).cos@[id as int].slot,
            final(self).cos@[id as int].joined == old(self).cos@[id as int].joined,
    {
        let ghost pre = *self;
        let cancelled = self.cos[id].handle.cancel.flag;
        if cancelled {
            let co = co_mut(&mut self.cos, id);
            co.end = None;
            co.slot = Some(Err(JoinError::Cancelled));
            co.status = CoStatus::Done;
            proof {
                assert(self.cos@ =~= pre.cos@.update(id as int, self.cos@[id as int]));
                lemma_total_work_update(pre.cos@, id as int, self.cos@[id as int]);
                assert_wf_after_done(pre, *self, id);
            }
            return RunEvent::CancelledOut(id);
        }
        let w: usize = match self.cos[id].worker_thread_id {
            Some(w) => w,
            None => {
                let w0 = id % self.workers;
                proof {
                    vstd::arithmetic::div_mod::lemma_mod_division_less_than_divisor(
                        id as int,
                        self.workers as int,
                    );
                }
                let co = co_mut(&mut self.cos, id);
                co.worker_thread_id = Some(w0);
                w0
            },
        };
        let ghost pinned = *self;
        let pc = self.cos[id].pc;
        let n = self.cos[id].steps.len();
        if pc < n {
            let st = self.cos[id].steps[pc];
            let co = co_mut(&mut self.cos, id);
            co.pc = pc + 1;
            match st {
                Step::Yield => {
                    self.queue.push_back(id);
                    proof {
                        assert(self.cos@ =~= pre.cos@.update(id as int, self.cos@[id as int]));
                        lemma_total_work_update(pre.cos@, id as int, self.cos@[id as int]);
                        assert_wf_after_yield(pre, *self, id);
                    }
                    RunEvent::Yielded(id)
                },
                Step::Sleep(d) => {
                    let co = co_mut(&mut self.cos, id);
                    co.status = CoStatus::Suspended;
                    let deadline = sat_add(self.now, d);
                    let ghost mid = *self;
                    proof {
                        lemma_wheel_le_load(self.wheels@, w as int);
                    }
                    let wheel = wheel_mut(&mut self.wheels, w);
                    wheel.insert(deadline, id as u64);
                    proof {
                        assert(self.cos@ =~= pre.cos@.update(id as int, self.cos@[id as int]));
                        lemma_total_work_update(pre.cos@, id as int, self.cos@[id as int]);
                        assert(self.wheels@ =~= mid.wheels@.update(
                            w as int,
                            self.wheels@[w as int],
                        ));
                        lemma_timer_load_update(mid.wheels@, w as int, self.wheels@[w as int]);
                        assert_wf_after_sleep(pre, *self, id, w);
                    }
                    RunEvent::Slept(id)
                },
            }
        } else {
            let co = co_mut(&mut self.cos, id);
            let need = co.stack_need;
            co.stack.record_use(need);
            let end = co.end.take();
            co.slot = Some(
                match end {
                    Some(TaskEnd::Return(v)) => Ok(v),
                    Some(TaskEnd::Panic(m)) => Err(JoinError::Panicked(m)),
                    None => Err(JoinError::Cancelled),
                },
            );
            co.status = CoStatus::Done;
            let overflowed = self.cos[id].stack.is_overflowed();
            proof {
                assert(self.cos@ =~= pre.cos@.update(id as int, self.cos@[id as int]));
                lemma_total_work_update(pre.cos@, id as int, self.cos@[id as int]);
                assert_wf_after_done(pre, *self, id);
            }
            if overflowed {
                RunEvent::Overflowed(id)
            } else {
                RunEvent::Completed(id)
            }
        }
    }
}

/// The queue and the wheels are untouched and only the coroutine
/// `id` changed, leaving suspension bookkeeping intact: the scheduler
/// stays well formed when `id` completes.
proof fn assert_wf_after_done<T>(pre: Scheduler<T>, post: Scheduler<T>, id: usize)
    requires
        pre.wf_at(id as int),
        (id as int) < pre.cos@.len(),
        pre.cos@[id as int].status == CoStatus::Ready,
        !pre.queue@.contains(id),
        post.queue@ == pre.queue@,
        post.wheels@ == pre.wheels@,
        post.now == pre.now,
        post.workers == pre.workers,
        post.cos@.len() == pre.cos@.len(),
        forall|i: int| 0 <= i < pre.cos@.len() && i != id ==> post.cos@[i] == pre.cos@[i],
        post.cos@[id as int].status == CoStatus::Done,
        post.cos@[id as int].end is None,
        post.cos@[id as int].slot is Some,
        !post.cos@[id as int].joined,
        post.cos@[id as int].worker_thread_id == pre.cos@[id as int].worker_thread_id || (
        post.cos@[id as int].worker_thread_id matches Some(w) && w < post.workers),
    ensures
        post.wf(),
{
    assert forall|i: int| 0 <= i < post.queue@.len() implies (#[trigger] post.queue@[i])
        < post.cos@.len() && post.cos@[post.queue@[i] as int].status == CoStatus::Ready by {
        assert(pre.queue@[i] != id);
    }
    assert forall|w: int, j: int|
        0 <= w < post.wheels@.len() && 0 <= j < post.wheels@[w].spec_entries().len() implies {
        let tok = (#[trigger] post.wheels@[w].spec_entries()[j]).token;
        &&& (tok as int) < post.cos@.len()
        &&& post.cos@[tok as int].status == CoStatus::Suspended
        &&& post.cos@[tok as int].worker_thread_id == Some(w as usize)
    } by {
        let tok = post.wheels@[w].spec_entries()[j].token;
        assert(pre.cos@[tok as int].status == CoStatus::Suspended);
        assert(tok != id as u64);
    }
    assert forall|cid: int|
        0 <= cid < post.cos@.len() implies match (#[trigger] post.cos@[cid]).status {
        CoStatus::Ready => post.queue@.contains(cid as usize),
        CoStatus::Suspended => post.in_wheels(cid),
        CoStatus::Done => true,
    } by {
        if cid != id {
            match pre.cos@[cid].status {
                CoStatus::Ready => {},
                CoStatus::Suspended => {
                    let (w, j) = choose|w: int, j: int|
                        0 <= w < pre.wheels@.len() && 0 <= j
                            < pre.wheels@[w].spec_entries().len() && (
                        #[trigger] pre.wheels@[w].spec_entries()[j]).token == cid;
                    assert(post.wheels@[w].spec_entries()[j].token == cid);
                },
                CoStatus::Done => {},
            }
        }
    }
}

/// The coroutine `id` went back to the end of the run queue with its
/// progress advanced: the scheduler stays well formed.
proof fn assert_wf_after_yield<T>(pre: Scheduler<T>, post: Scheduler<T>, id: usize)
    requires
        pre.wf_at(id as int),
        (id as int) < pre.cos@.len(),
        pre.cos@[id as int].status == CoStatus::Ready,
        !pre.queue@.contains(id),
        post.queue@ == pre.queue@.push(id),
        post.wheels@ == pre.wheels@,
        post.now == pre.now,
        post.workers == pre.workers,
        post.cos@.len() == pre.cos@.len(),
        forall|i: int| 0 <= i < pre.cos@.len() && i != id ==> post.cos@[i] == pre.cos@[i],
        post.cos@[id as int].status == CoStatus::Ready,
        post.cos@[id as int].slot == pre.cos@[id as int].slot,
        post.cos@[id as int].joined == pre.cos@[id as int].joined,
        post.cos@[id as int].end == pre.cos@[id as int].end,
        post.cos@[id as int].pc <= post.cos@[id as int].steps@.len(),
        post.cos@[id as int].worker_thread_id matches Some(w) && w < post.workers,
    ensures
        post.wf(),
{
    assert forall|i: int, j: int|
        0 <= i < post.queue@.len() && 0 <= j < post.queue@.len() && i != j implies post.queue@[i]
        != post.queue@[j] by {
        if i < pre.queue@.len() && j < pre.queue@.len() {
            assert(pre.queue@.no_duplicates());
        } else if i < pre.queue@.len() {
            assert(post.queue@[j] == id);
            assert(pre.queue@.contains(pre.queue@[i]) == true);
        } else if j < pre.queue@.len() {
            assert(post.queue@[i] == id);
            assert(pre.queue@.contains(pre.queue@[j]) == true);
        }
    }
    assert(post.queue@.no_duplicates());
    assert forall|w: int, j: int|
        0 <= w < post.wheels@.len() && 0 <= j < post.wheels@[w].spec_entries().len() implies {
        let tok = (#[trigger] post.wheels@[w].spec_entries()[j]).token;
        &&& (tok as int) < post.cos@.len()
        &&& post.cos@[tok as int].status == CoStatus::Suspended
        &&& post.cos@[tok as int].worker_thread_id == Some(w as usize)
    } by {
        let tok = post.wheels@[w].spec_entries()[j].token;
        assert(pre.cos@[tok as int].status == CoStatus::Suspended);
        assert(tok != id as u64);
    }
    assert forall|cid: int|
        0 <= cid < post.cos@.len() implies match (#[trigger] post.cos@[cid]).status {
        CoStatus::Ready => post.queue@.contains(cid as usize),
        CoStatus::Suspended => post.in_wheels(cid),
        CoStatus::Done => true,
    } by {
        if cid == id {
            assert(post.queue@[post.queue@.len() - 1] == id);
        } else {
            match pre.cos@[cid].status {
                CoStatus::Ready => {
                    let qi = choose|qi: int|
                        0 <= qi < pre.queue@.len() && pre.queue@[qi] == cid as usize;
                    assert(post.queue@[qi] == cid as usize);
                },
                CoStatus::Suspended => {
                    let (w, j) = choose|w: int, j: int|
                        0 <= w < pre.wheels@.len() && 0 <= j
                            < pre.wheels@[w].spec_entries().len() && (
                        #[trigger] pre.wheels@[w].spec_entries()[j]).token == cid;
                    assert(post.wheels@[w].spec_entries()[j].token == cid);
                },
                CoStatus::Done => {},
            }
        }
    }
}

/// The coroutine `id` moved onto wheel `w` of its pinned worker: the
/// scheduler stays well formed.
proof fn assert_wf_after_sleep<T>(pre: Scheduler<T>, post: Scheduler<T>, id: usize, w: usize)
    requires
        pre.wf_at(id as int),
        (id as int) < pre.cos@.len(),
        pre.cos@[id as int].status == CoStatus::Ready,
        !pre.queue@.contains(id),
        (w as int) < pre.wheels@.len(),
        post.queue@ == pre.queue@,
        post.wheels@ == pre.wheels@.update(
            w as int,
            post.wheels@[w as int],
        ),
        post.wheels@[w as int].spec_entries() == pre.wheels@[w as int].spec_entries().push(
            crate::timer::TimerEntry {
                deadline: post.wheels@[w as int].spec_entries().last().deadline,
                token: id as u64,
            },
        ),
        post.wheels@[w as int].wf(),
        post.wheels@[w as int].spec_last_fired() == pre.wheels@[w as int].spec_last_fired(),
        post.now == pre.now,
        post.workers == pre.workers,
        post.cos@.len() == pre.cos@.len(),
        forall|i: int| 0 <= i < pre.cos@.len() && i != id ==> post.cos@[i] == pre.cos@[i],
        post.cos@[id as int].status == CoStatus::Suspended,
        post.cos@[id as int].slot == pre.cos@[id as int].slot,
        post.cos@[id as int].joined == pre.cos@[id as int].joined,
        post.cos@[id as int].end == pre.cos@[id as int].end,
        post.cos@[id as int].pc <= post.cos@[id as int].steps@.len(),
        post.cos@[id as int].worker_thread_id == Some(w),
        w < post.workers,
    ensures
        post.wf(),
{
    let newlen = post.wheels@[w as int].spec_entries().len();
    assert forall|w2: int, j: int|
        0 <= w2 < post.wheels@.len() && 0 <= j < post.wheels@[w2].spec_entries().len() implies {
        let tok = (#[trigger] post.wheels@[w2].spec_entries()[j]).token;
        &&& (tok as int) < post.cos@.len()
        &&& post.cos@[tok as int].status == CoStatus::Suspended
        &&& post.cos@[tok as int].worker_thread_id == Some(w2 as usize)
    } by {
        let tok = post.wheels@[w2].spec_entries()[j].token;
        if w2 == w && j == newlen - 1 {
            assert(tok == id as u64);
        } else {
            assert(post.wheels@[w2].spec_entries()[j] == pre.wheels@[w2].spec_entries()[j]);
            assert(pre.cos@[tok as int].status == CoStatus::Suspended);
            assert(tok != id as u64);
        }
    }
    assert forall|w2: int, j2: int, w3: int, j3: int|
        0 <= w2 < post.wheels@.len() && 0 <= j2 < post.wheels@[w2].spec_entries().len() && 0 <= w3
            < post.wheels@.len() && 0 <= j3 < post.wheels@[w3].spec_entries().len() && (w2 != w3
            || j2 != j3) implies (#[trigger] post.wheels@[w2].spec_entries()[j2]).token != (
        #[trigger] post.wheels@[w3].spec_entries()[j3]).token by {
        let is_new2 = w2 == w && j2 == newlen - 1;
        let is_new3 = w3 == w && j3 == newlen - 1;
        if is_new2 && !is_new3 {
            assert(post.wheels@[w3].spec_entries()[j3] == pre.wheels@[w3].spec_entries()[j3]);
            assert(pre.cos@[post.wheels@[w3].spec_entries()[j3].token as int].status
                == CoStatus::Suspended);
        } else if !is_new2 && is_new3 {
            assert(post.wheels@[w2].spec_entries()[j2] == pre.wheels@[w2].spec_entries()[j2]);
            assert(pre.cos@[post.wheels@[w2].spec_entries()[j2].token as int].status
                == CoStatus::Suspended);
        } else if !is_new2 && !is_new3 {
            assert(post.wheels@[w2].spec_entries()[j2] == pre.wheels@[w2].spec_entries()[j2]);
            assert(post.wheels@[w3].spec_entries()[j3] == pre.wheels@[w3].spec_entries()[j3]);
        }
    }
    assert forall|cid: int|
        0 <= cid < post.cos@.len() implies match (#[trigger] post.cos@[cid]).status {
        CoStatus::Ready => post.queue@.contains(cid as usize),
        CoStatus::Suspended => post.in_wheels(cid),
        CoStatus::Done => true,
    } by {
        if cid == id {
            assert(post.wheels@[w as int].spec_entries()[newlen - 1].token == id as u64);
        } else {
            match pre.cos@[cid].status {
                CoStatus::Ready => {},
                CoStatus::Suspended => {
                    let (w2, j) = choose|w2: int, j: int|
                        0 <= w2 < pre.wheels@.len() && 0 <= j
                            < pre.wheels@[w2].spec_entries().len() && (
                        #[trigger] pre.wheels@[w2].spec_entries()[j]).token == cid;
                    assert(post.wheels@[w2].spec_entries()[j].token == cid);
                },
                CoStatus::Done => {},
            }
        }
    }
}


/// No single wheel holds more entries than all wheels together.
pub proof fn lemma_wheel_le_load(s: Seq<TimerWheel>, w: int)
    requires
        0 <= w < s.len(),
    ensures
        s[w].spec_entries().len() <= timer_load(s),
    decreases s.len(),
{
    if w == s.len() - 1 {
        assert(s.last() == s[w]);
    } else {
        lemma_wheel_le_load(s.drop_last(), w);
        assert(s.drop_last()[w] == s[w]);
    }
}


/// How one scheduling step may change a coroutine: its cancellation
/// flag is untouched, a completion writes the join slot once with the
/// outcome its flag and pending ending dictate, anything short of
/// completion leaves the join state alone, a completed coroutine is
/// never touched again, and a pinned coroutine stays on its worker.
pub open spec fn stepped<T>(pre: CoroutineImpl<T>, post: CoroutineImpl<T>) -> bool {
    &&& post.handle.cancel.flag == pre.handle.cancel.flag
    &&& (post.status == CoStatus::Done && pre.status != CoStatus::Done ==> post.slot == Some(
        if pre.handle.cancel.flag {
            Result::<T, JoinError>::Err(JoinError::Cancelled)
        } else {
            match pre.end {
                Some(TaskEnd::Return(v)) => Result::<T, JoinError>::Ok(v),
                Some(TaskEnd::Panic(m)) => Result::<T, JoinError>::Err(JoinError::Panicked(m)),
                None => Result::<T, JoinError>::Err(JoinError::Cancelled),
            }
        },
    ) && !post.joined)
    &&& (post.status != CoStatus::Done ==> post.end == pre.end && post.slot == pre.slot
        && post.joined == pre.joined)
    &&& (pre.status == CoStatus::Done ==> post == pre)
    &&& (pre.worker_thread_id matches Some(w) ==> post.worker_thread_id == Some(w))
}

/// The step relation composes: two steps are again a step.
pub proof fn lemma_stepped_trans<T>(a: CoroutineImpl<T>, b: CoroutineImpl<T>, c: CoroutineImpl<T>)
    requires
        stepped(a, b),
        stepped(b, c),
    ensures
        stepped(a, c),
{
}

impl<T> Scheduler<T> {
    /// One scheduling turn: takes the coroutine at the head of the
    /// run queue — first in, first out, so with N runnable coroutines
    /// none waits more than N turns — and resumes it as
    /// [`Scheduler::dispatch`] describes.  With an empty queue the
    /// scheduler reports itself idle and changes nothing.
    pub fn run_next(&mut self) -> (r: RunEvent)
        requires
            old(self).wf(),
            old(self).queue@.len() < 1_000_000_000,
            old(self).spec_timer_load() < 1_000_000_000,
        ensures
            final(self).wf(),
            r == RunEvent::Idle <==> old(self).queue@.len() == 0,
            r == RunEvent::Idle ==> *final(self) == *old(self),
            final(self).now == old(self).now,
            final(self).workers == old(self).workers,
            final(self).cos@.len() == old(self).cos@.len(),
            forall|i: int|
                0 <= i < old(self).cos@.len() ==> stepped(
                    old(self).cos@[i],
                    #[trigger] final(self).cos@[i],
                ),
            r != RunEvent::Idle ==> final(self).spec_total_work() + 1 == old(self).spec_total_work() && (match r {
                RunEvent::Yielded(i) => i == old(self).queue@[0],
                RunEvent::Slept(i) => i == old(self).queue@[0],
                RunEvent::Completed(i) => i == old(self).queue@[0],
                RunEvent::Overflowed(i) => i == old(self).queue@[0],
                RunEvent::CancelledOut(i) => i == old(self).queue@[0],
                RunEvent::Idle => false,
            }),
            r matches RunEvent::Slept(i) ==> final(self).spec_timer_load() == old(self).spec_timer_load() + 1 && final(self).queue@ == old(self).queue@.remove(0),
            !(r matches RunEvent::Slept(i)) ==> final(self).spec_timer_load() == old(self).spec_timer_load(),
            r matches RunEvent::Yielded(i) ==> final(self).queue@ == old(self).queue@.remove(
                0,
            ).push(i),
            (r matches RunEvent::Completed(i) || r matches RunEvent::Overflowed(i) || r
                matches RunEvent::CancelledOut(i)) ==> final(self).queue@ == old(self).queue@.remove(0),
            r matches RunEvent::Overflowed(i) ==> final(self).cos@[i as int].stack.spec_used()
                == final(self).cos@[i as int].stack.spec_size() && final(self).cos@[i
                as int].status == CoStatus::Done && (i as int) < old(self).cos@.len(),
            r matches RunEvent::CancelledOut(i) ==> old(self).cos@[i as int].handle.cancel.flag,
            r != RunEvent::Idle ==> forall|i: int|
                0 <= i < old(self).cos@.len() && i != old(self).queue@[0] ==> final(self).cos@[i]
                    == (#[trigger] old(self).cos@[i]),
            old(self).queue@.len() > 0 ==> ({
                let h = old(self).queue@[0];
                let co = old(self).cos@[h as int];
                &&& (r == RunEvent::CancelledOut(h) <==> co.handle.cancel.flag)
                &&& ((r == RunEvent::Completed(h) || r == RunEvent::Overflowed(h)) <==> (
                !co.handle.cancel.flag && co.pc == co.steps@.len()))
                &&& (r == RunEvent::Yielded(h) <==> (!co.handle.cancel.flag && co.pc
                    < co.steps@.len() && co.steps@[co.pc as int] is Yield))
                &&& (r == RunEvent::Slept(h) <==> (!co.handle.cancel.flag && co.pc
                    < co.steps@.len() && co.steps@[co.pc as int] is Sleep))
                &&& (r == RunEvent::Completed(h) ==> final(self).cos@[h as int].stack.spec_used()
                    != final(self).cos@[h as int].stack.spec_size())
                &&& (r == RunEvent::Yielded(h) ==> final(self).cos@[h as int].status
                    == CoStatus::Ready)
                &&& (r == RunEvent::Slept(h) ==> final(self).cos@[h as int].status
                    == CoStatus::Suspended)
                &&& (r == RunEvent::Slept(h) ==> (co.steps@[co.pc as int] matches Step::Sleep(d)
                    && final(self).cos@[h as int].worker_thread_id matches Some(w) && (w as int)
                    < old(self).wheels@.len() && final(self).wheels@ == old(self).wheels@.update(
                    w as int,
                    final(self).wheels@[w as int],
                ) && final(self).wheels@[w as int].spec_entries() == old(self).wheels@[w
                    as int].spec_entries().push(
                    crate::timer::TimerEntry {
                        deadline: spec_clock_after(old(self).now, d),
                        token: h as u64,
                    },
                ) && final(self).wheels@[w as int].spec_last_fired() == old(self).wheels@[w
                    as int].spec_last_fired()))
            }),
    {
        if self.queue.len() == 0 {
            return RunEvent::Idle;
        }
        let ghost pre = *self;
        let n_cos = self.cos.len();
        let id = match self.queue.pop_front() {
            Some(id) => id,
            None => {
                proof {
                    assert(false);
                }
                return RunEvent::Idle;
            },
        };
        proof {
            assert(self.queue@ =~= pre.queue@.remove(0));
            assert(pre.cos@.len() == n_cos);
            assert(pre.queue@[0] == id);
            assert forall|i: int, j: int|
                0 <= i < self.queue@.len() && 0 <= j < self.queue@.len() && i != j implies self.queue@[i]
                != self.queue@[j] by {
                assert(self.queue@[i] == pre.queue@[i + 1]);
                assert(self.queue@[j] == pre.queue@[j + 1]);
            }
            assert(self.queue@.no_duplicates());
            assert forall|qi: int| 0 <= qi < self.queue@.len() implies (
            #[trigger] self.queue@[qi]) != id by {
                assert(self.queue@[qi] == pre.queue@[qi + 1]);
            }
            assert(!self.queue@.contains(id));
            assert forall|cid: int|
                0 <= cid < self.cos@.len() && cid != id implies match (
            #[trigger] self.cos@[cid]).status {
                CoStatus::Ready => self.queue@.contains(cid as usize),
                CoStatus::Suspended => self.in_wheels(cid),
                CoStatus::Done => true,
            } by {
                match pre.cos@[cid].status {
                    CoStatus::Ready => {
                        let qi = choose|qi: int|
                            0 <= qi < pre.queue@.len() && pre.queue@[qi] == cid as usize;
                        if qi == 0 {
                            assert(cid as usize == id);
                            assert(0 <= cid < n_cos <= usize::MAX);
                            assert(cid == id as int);
                            assert(false);
                        }
                        assert(self.queue@[qi - 1] == cid as usize);
                    },
                    CoStatus::Suspended => {},
                    CoStatus::Done => {},
                }
            }
            assert(self.wf_at(id as int));
        }
        let r = self.dispatch(id);
        proof {
            assert forall|i: int|
                0 <= i < old(self).cos@.len() implies stepped(
                old(self).cos@[i],
                #[trigger] self.cos@[i],
            ) by {
                if i != id {
                    assert(self.cos@[i] == old(self).cos@[i]);
                }
            }
        }
        r
    }

    /// Advances the virtual clock to the next pending deadline and
    /// fires that timer: its coroutine comes off its wheel and joins
    /// the back of the run queue.  Reports false, changing nothing,
    /// exactly when no deadline is pending anywhere.
    pub fn fire_next(&mut self) -> (r: bool)
        requires
            old(self).wf(),
            old(self).queue@.len() < 1_000_000_000,
        ensures
            final(self).wf(),
            r == (old(self).spec_timer_load() != 0),
            !r ==> *final(self) == *old(self),
            final(self).workers == old(self).workers,
            final(self).cos@.len() == old(self).cos@.len(),
            final(self).now >= old(self).now,
            final(self).spec_total_work() == old(self).spec_total_work(),
            forall|i: int|
                0 <= i < old(self).cos@.len() ==> stepped(
                    old(self).cos@[i],
                    #[trigger] final(self).cos@[i],
                ),
            r ==> final(self).spec_timer_load() + 1 == old(self).spec_timer_load() && final(self).queue@.len() == old(self).queue@.len() + 1,
            r ==> exists|w: int, i: int| fired_from(*old(self), *final(self), w, i),
    {
        let ghost pre = *self;
        let mut best_w: usize = 0;
        let mut best_d: Option<u64> = None;
        let mut w: usize = 0;
        while w < self.wheels.len()
            invariant
                *self == pre,
                w <= self.wheels@.len(),
                best_d is None ==> forall|w2: int|
                    0 <= w2 < w ==> (#[trigger] self.wheels@[w2]).spec_entries().len() == 0,
                best_d matches Some(d) ==> best_w < w && (exists|j: int|
                    0 <= j < self.wheels@[best_w as int].spec_entries().len() && (
                    #[trigger] self.wheels@[best_w as int].spec_entries()[j]).deadline == d)
                    && forall|w2: int, j: int|
                    0 <= w2 < w && 0 <= j < self.wheels@[w2].spec_entries().len() ==> (
                    #[trigger] self.wheels@[w2].spec_entries()[j]).deadline >= d,
            decreases self.wheels@.len() - w,
        {
            match self.wheels[w].min_deadline() {
                None => {},
                Some(d) => {
                    match best_d {
                        None => {
                            best_w = w;
                            best_d = Some(d);
                        },
                        Some(b) => {
                            if d < b {
                                best_w = w;
                                best_d = Some(d);
                            }
                        },
                    }
                },
            }
            w = w + 1;
        }
        let dl = match best_d {
            None => {
                proof {
                    lemma_timer_load_all_empty(self.wheels@);
                }
                return false;
            },
            Some(d) => d,
        };
        proof {
            lemma_load_nonzero(self.wheels@, best_w as int);
        }
        if dl > self.now {
            self.now = dl;
        }
        let ghost mid = *self;
        let wheel = wheel_mut(&mut self.wheels, best_w);
        let fired = wheel.pop_due(self.now);
        let en = match fired {
            None => {
                proof {
                    assert(false);
                }
                return false;
            },
            Some(en) => en,
        };
        proof {
            assert(self.wheels@ =~= mid.wheels@.update(best_w as int, self.wheels@[best_w
                as int]));
            lemma_timer_load_update(mid.wheels@, best_w as int, self.wheels@[best_w as int]);
        }
        let n_cos = self.cos.len();
        proof {
            assert((en.token as int) < mid.cos@.len());
            assert(mid.cos@.len() == n_cos <= usize::MAX);
        }
        let tok: usize = en.token as usize;
        let ghost wi = choose|i: int|
            0 <= i < mid.wheels@[best_w as int].spec_entries().len() && mid.wheels@[best_w
                as int].spec_entries()[i] == en && self.wheels@[best_w as int].spec_entries()
                == mid.wheels@[best_w as int].spec_entries().remove(i);
        let co = co_mut(&mut self.cos, tok);
        co.status = CoStatus::Ready;
        self.queue.push_back(tok);
        proof {
            assert(self.cos@ =~= pre.cos@.update(tok as int, self.cos@[tok as int]));
            lemma_total_work_update(pre.cos@, tok as int, self.cos@[tok as int]);
            assert(mid.wheels@[best_w as int].spec_entries()[wi].token == tok as u64);
            assert_wf_after_wake(mid, *self, tok, best_w, wi);
            assert(en.deadline == dl) by {
                assert(mid.wheels@[best_w as int].spec_entries()[wi] == en);
                assert(en.deadline >= dl);
            }
            assert(fired_from(pre, *self, best_w as int, wi));
        }
        true
    }
}

/// One firing step, witnessed: entry `i` of wheel `w` held a
/// smallest pending deadline anywhere, the clock advanced exactly to
/// it (never backward), the entry left its wheel, and its coroutine
/// joined the back of the run queue, runnable again; nothing else
/// moved.
pub open spec fn fired_from<T>(pre: Scheduler<T>, post: Scheduler<T>, w: int, i: int) -> bool {
    let e = pre.wheels@[w].spec_entries()[i];
    &&& 0 <= w < pre.wheels@.len()
    &&& 0 <= i < pre.wheels@[w].spec_entries().len()
    &&& (forall|w2: int, j: int|
        0 <= w2 < pre.wheels@.len() && 0 <= j < pre.wheels@[w2].spec_entries().len() ==> (
        #[trigger] pre.wheels@[w2].spec_entries()[j]).deadline >= e.deadline)
    &&& post.now == (if e.deadline > pre.now {
        e.deadline
    } else {
        pre.now
    })
    &&& post.queue@ == pre.queue@.push(e.token as usize)
    &&& post.wheels@ == pre.wheels@.update(w, post.wheels@[w])
    &&& post.wheels@[w].spec_entries() == pre.wheels@[w].spec_entries().remove(i)
    &&& (e.token as int) < post.cos@.len()
    &&& post.cos@[e.token as int].status == CoStatus::Ready
    &&& (forall|c: int|
        0 <= c < pre.cos@.len() && c != e.token ==> post.cos@[c] == (#[trigger] pre.cos@[c]))
}

/// The load of a sequence of wheels with a non-empty wheel is not
/// zero.
pub proof fn lemma_load_nonzero(s: Seq<TimerWheel>, w: int)
    requires
        0 <= w < s.len(),
        s[w].spec_entries().len() > 0,
    ensures
        timer_load(s) > 0,
    decreases s.len(),
{
    if w < s.len() - 1 {
        lemma_load_nonzero(s.drop_last(), w);
    }
}

/// The coroutine `tok` left wheel `w` (entry `wi`) and joined the
/// back of the run queue: the scheduler stays well formed.
#[verifier::rlimit(80)]
proof fn assert_wf_after_wake<T>(
    pre: Scheduler<T>,
    post: Scheduler<T>,
    tok: usize,
    w: usize,
    wi: int,
)
    requires
        pre.wf(),
        (tok as int) < pre.cos@.len(),
        (w as int) < pre.wheels@.len(),
        0 <= wi < pre.wheels@[w as int].spec_entries().len(),
        pre.wheels@[w as int].spec_entries()[wi].token == tok as u64,
        post.queue@ == pre.queue@.push(tok),
        post.wheels@ == pre.wheels@.update(w as int, post.wheels@[w as int]),
        post.wheels@[w as int].spec_entries() == pre.wheels@[w as int].spec_entries().remove(wi),
        post.wheels@[w as int].wf(),
        post.wheels@[w as int].spec_last_fired() <= post.now,
        post.now >= pre.now,
        post.workers == pre.workers,
        post.cos@.len() == pre.cos@.len(),
        forall|i: int| 0 <= i < pre.cos@.len() && i != tok ==> post.cos@[i] == pre.cos@[i],
        post.cos@[tok as int].status == CoStatus::Ready,
        post.cos@[tok as int].slot == pre.cos@[tok as int].slot,
        post.cos@[tok as int].joined == pre.cos@[tok as int].joined,
        post.cos@[tok as int].end == pre.cos@[tok as int].end,
        post.cos@[tok as int].pc == pre.cos@[tok as int].pc,
        post.cos@[tok as int].steps@ == pre.cos@[tok as int].steps@,
        post.cos@[tok as int].worker_thread_id == pre.cos@[tok as int].worker_thread_id,
    ensures
        post.wf(),
{
    assert(pre.cos@[tok as int].status == CoStatus::Suspended);
    assert(!pre.queue@.contains(tok)) by {
        if pre.queue@.contains(tok) {
            let qi = choose|qi: int| 0 <= qi < pre.queue@.len() && pre.queue@[qi] == tok;
            assert(pre.cos@[tok as int].status == CoStatus::Ready);
        }
    }
    let oldlen = pre.wheels@[w as int].spec_entries().len();
    assert forall|i: int, j: int|
        0 <= i < post.queue@.len() && 0 <= j < post.queue@.len() && i != j implies post.queue@[i]
        != post.queue@[j] by {
        if i < pre.queue@.len() && j < pre.queue@.len() {
            assert(pre.queue@.no_duplicates());
        } else if i < pre.queue@.len() {
            assert(pre.queue@.contains(pre.queue@[i]) == true);
        } else if j < pre.queue@.len() {
            assert(pre.queue@.contains(pre.queue@[j]) == true);
        }
    }
    assert(post.queue@.no_duplicates());
    assert forall|w2: int, j: int|
        0 <= w2 < post.wheels@.len() && 0 <= j < post.wheels@[w2].spec_entries().len() implies {
        let t2 = (#[trigger] post.wheels@[w2].spec_entries()[j]).token;
        &&& (t2 as int) < post.cos@.len()
        &&& post.cos@[t2 as int].status == CoStatus::Suspended
        &&& post.cos@[t2 as int].worker_thread_id == Some(w2 as usize)
    } by {
        if w2 == w {
            if j < wi {
                assert(post.wheels@[w2].spec_entries()[j] == pre.wheels@[w2].spec_entries()[j]);
            } else {
                assert(post.wheels@[w2].spec_entries()[j] == pre.wheels@[w2].spec_entries()[j
                    + 1]);
            }
        } else {
            assert(post.wheels@[w2].spec_entries()[j] == pre.wheels@[w2].spec_entries()[j]);
        }
    }
    assert forall|w2: int, j2: int, w3: int, j3: int|
        0 <= w2 < post.wheels@.len() && 0 <= j2 < post.wheels@[w2].spec_entries().len() && 0 <= w3
            < post.wheels@.len() && 0 <= j3 < post.wheels@[w3].spec_entries().len() && (w2 != w3
            || j2 != j3) implies (#[trigger] post.wheels@[w2].spec_entries()[j2]).token != (
        #[trigger] post.wheels@[w3].spec_entries()[j3]).token by {
        let m2: int = if w2 == w && j2 >= wi {
            j2 + 1
        } else {
            j2
        };
        let m3: int = if w3 == w && j3 >= wi {
            j3 + 1
        } else {
            j3
        };
        assert(post.wheels@[w2].spec_entries()[j2] == pre.wheels@[w2].spec_entries()[m2]);
        assert(post.wheels@[w3].spec_entries()[j3] == pre.wheels@[w3].spec_entries()[m3]);
    }
    assert forall|cid: int|
        0 <= cid < post.cos@.len() implies match (#[trigger] post.cos@[cid]).status {
        CoStatus::Ready => post.queue@.contains(cid as usize),
        CoStatus::Suspended => post.in_wheels(cid),
        CoStatus::Done => true,
    } by {
        if cid == tok {
            assert(post.queue@[post.queue@.len() - 1] == tok);
        } else {
            match pre.cos@[cid].status {
                CoStatus::Ready => {
                    let qi = choose|qi: int|
                        0 <= qi < pre.queue@.len() && pre.queue@[qi] == cid as usize;
                    assert(post.queue@[qi] == cid as usize);
                },
                CoStatus::Suspended => {
                    let (w2, j) = choose|w2: int, j: int|
                        0 <= w2 < pre.wheels@.len() && 0 <= j
                            < pre.wheels@[w2].spec_entries().len() && !(w2 == w && j == wi) && (
                        #[trigger] pre.wheels@[w2].spec_entries()[j]).token == cid;
                    if w2 == w {
                        if j < wi {
                            assert(post.wheels@[w2].spec_entries()[j].token == cid);
                        } else {
                            assert(post.wheels@[w2].spec_entries()[j - 1].token == cid);
                        }
                    } else {
                        assert(post.wheels@[w2].spec_entries()[j].token == cid);
                    }
                },
                CoStatus::Done => {},
            }
        }
    }
}


impl<T> Scheduler<T> {
    /// Requests cancellation of coroutine `id`: its flag is set for
    /// good, so the next resume — and every suspension point after —
    /// observes it.  A coroutine asleep on a timer does not wait out
    /// its deadline: its timer is removed at once and the coroutine
    /// re-queued, so it observes the cancellation promptly.
    pub fn cancel(&mut self, id: usize)
        requires
            old(self).wf(),
            id < old(self).cos@.len(),
            old(self).queue@.len() < 1_000_000_000,
        ensures
            final(self).wf(),
            final(self).cos@.len() == old(self).cos@.len(),
            final(self).now == old(self).now,
            final(self).workers == old(self).workers,
            forall|i: int|
                0 <= i < old(self).cos@.len() && i != id ==> final(self).cos@[i] == old(self).cos@[i],
            final(self).cos@[id as int].handle.cancel.flag,
            final(self).cos@[id as int].status != CoStatus::Suspended,
            final(self).cos@[id as int].slot == old(self).cos@[id as int].slot,
            final(self).cos@[id as int].end == old(self).cos@[id as int].end,
            final(self).cos@[id as int].joined == old(self).cos@[id as int].joined,
            final(self).spec_total_work() == old(self).spec_total_work(),
            old(self).cos@[id as int].status == CoStatus::Suspended ==> final(self).queue@ == old(self).queue@.push(id) && final(self).cos@[id as int].status == CoStatus::Ready && final(self).spec_timer_load() + 1 == old(self).spec_timer_load(),
            old(self).cos@[id as int].status != CoStatus::Suspended ==> final(self).queue@ == old(self).queue@ && final(self).wheels@ == old(self).wheels@ && final(self).cos@[id
                as int].status == old(self).cos@[id as int].status,
    {
        let ghost pre = *self;
        let n_cos = self.cos.len();
        let co = co_mut(&mut self.cos, id);
        let _ = co.handle.cancel.cancel();
        proof {
            assert(self.cos@ =~= pre.cos@.update(id as int, self.cos@[id as int]));
            lemma_total_work_update(pre.cos@, id as int, self.cos@[id as int]);
        }
        proof {
            assert(self.wf());
        }
        let suspended = matches!(self.cos[id].status, CoStatus::Suspended);
        if !suspended {
            return ;
        }
        let ghost mid = *self;
        let w: usize = match self.cos[id].worker_thread_id {
            Some(w) => w,
            None => {
                proof {
                    assert(mid.in_wheels(id as int));
                    assert(false);
                }
                0
            },
        };
        proof {
            assert(mid.in_wheels(id as int));
            let (w2, j) = choose|w2: int, j: int|
                0 <= w2 < mid.wheels@.len() && 0 <= j < mid.wheels@[w2].spec_entries().len() && (
                #[trigger] mid.wheels@[w2].spec_entries()[j]).token == id;
            assert(mid.cos@[id as int].worker_thread_id == Some(w2 as usize));
            assert(w2 == w as int);
        }
        let ghost mid2 = *self;
        let wheel = wheel_mut(&mut self.wheels, w);
        let removed = wheel.remove_token(id as u64);
        proof {
            if removed is None {
                let (w2, j) = choose|w2: int, j: int|
                    0 <= w2 < mid.wheels@.len() && 0 <= j < mid.wheels@[w2].spec_entries().len()
                        && (#[trigger] mid.wheels@[w2].spec_entries()[j]).token == id;
                assert(mid.wheels@[w as int].spec_entries()[j].token == id as u64);
                assert(false);
            }
            assert(self.wheels@ =~= mid2.wheels@.update(w as int, self.wheels@[w as int]));
            lemma_timer_load_update(mid2.wheels@, w as int, self.wheels@[w as int]);
        }
        let ghost wi = choose|i: int|
            0 <= i < mid2.wheels@[w as int].spec_entries().len() && mid2.wheels@[w
                as int].spec_entries()[i] == removed->Some_0 && self.wheels@[w
                as int].spec_entries() == mid2.wheels@[w as int].spec_entries().remove(i);
        let ghost pre3 = *self;
        let co = co_mut(&mut self.cos, id);
        co.status = CoStatus::Ready;
        self.queue.push_back(id);
        proof {
            assert(self.cos@ =~= mid.cos@.update(id as int, self.cos@[id as int]));
            lemma_total_work_update(mid.cos@, id as int, self.cos@[id as int]);
            assert(mid2.wheels@[w as int].spec_entries()[wi].token == id as u64);
            assert_wf_after_wake(mid2, *self, id, w, wi);
        }
    }

    /// Runs the scheduler until nothing is left to do: every
    /// coroutine spawned has then completed (and, unless it was
    /// already claimed, its join slot is written), however many
    /// scheduler turns that takes.  Timers are waited out on the
    /// virtual clock.  Reports the first coroutine caught by the
    /// stack overflow gate, if any: on it the driver must abort the
    /// process.
    pub fn run_until_idle(&mut self) -> (r: Option<usize>)
        requires
            old(self).wf(),
            old(self).queue@.len() + old(self).spec_total_work() + old(self).spec_timer_load()
                < 1_000_000_000,
        ensures
            final(self).wf(),
            final(self).cos@.len() == old(self).cos@.len(),
            final(self).workers == old(self).workers,
            forall|i: int|
                0 <= i < old(self).cos@.len() ==> (#[trigger] final(self).cos@[i]).status
                    == CoStatus::Done,
            forall|i: int|
                0 <= i < old(self).cos@.len() ==> stepped(
                    old(self).cos@[i],
                    #[trigger] final(self).cos@[i],
                ),
            r matches Some(i) ==> (i as int) < final(self).cos@.len() && final(self).cos@[i
                as int].stack.spec_used() == final(self).cos@[i as int].stack.spec_size(),
            r is None ==> forall|i: int|
                0 <= i < old(self).cos@.len() && (#[trigger] old(self).cos@[i]).status
                    != CoStatus::Done && !old(self).cos@[i].handle.cancel.flag ==> final(self).cos@[i].stack.spec_used() != final(self).cos@[i].stack.spec_size(),
            final(self).queue@.len() == 0,
            final(self).spec_timer_load() == 0,
            final(self).spec_total_work() <= old(self).spec_total_work(),
    {
        let ghost entry = *self;
        let mut overflow: Option<usize> = None;
        let mut running = true;
        while running
            invariant
                self.wf(),
                self.cos@.len() == entry.cos@.len(),
                self.workers == entry.workers,
                self.queue@.len() + self.spec_total_work() + self.spec_timer_load()
                    < 1_000_000_000,
                self.queue@.len() + self.spec_timer_load() <= entry.queue@.len()
                    + entry.spec_timer_load() + (entry.spec_total_work() - self.spec_total_work()),
                self.spec_total_work() <= entry.spec_total_work(),
                forall|i: int|
                    0 <= i < entry.cos@.len() ==> stepped(
                        entry.cos@[i],
                        #[trigger] self.cos@[i],
                    ),
                !running ==> self.queue@.len() == 0 && self.spec_timer_load() == 0,
                overflow matches Some(i) ==> (i as int) < self.cos@.len() && self.cos@[i
                    as int].stack.spec_used() == self.cos@[i as int].stack.spec_size()
                    && self.cos@[i as int].status == CoStatus::Done,
                overflow is None ==> forall|i: int|
                    0 <= i < entry.cos@.len() && (#[trigger] entry.cos@[i]).status
                        != CoStatus::Done && !entry.cos@[i].handle.cancel.flag
                        && self.cos@[i].status == CoStatus::Done ==> self.cos@[i].stack.spec_used() != self.cos@[i].stack.spec_size(),
            decreases
                self.spec_total_work(),
                self.spec_timer_load(),
                self.queue@.len(),
                (if running {
                    1int
                } else {
                    0int
                }),
        {
            let ghost loop_pre = *self;
            let ev = self.run_next();
            proof {
                assert forall|i: int|
                    0 <= i < entry.cos@.len() implies stepped(
                    entry.cos@[i],
                    #[trigger] self.cos@[i],
                ) by {
                    lemma_stepped_trans(entry.cos@[i], loop_pre.cos@[i], self.cos@[i]);
                }
                if !(ev matches RunEvent::Overflowed(_)) {
                    assert forall|i: int|
                        0 <= i < entry.cos@.len() && (#[trigger] entry.cos@[i]).status
                            != CoStatus::Done && !entry.cos@[i].handle.cancel.flag
                            && self.cos@[i].status == CoStatus::Done
                            && loop_pre.cos@[i].status != CoStatus::Done implies self.cos@[i].stack.spec_used() != self.cos@[i].stack.spec_size() by {
                        assert(ev != RunEvent::Idle);
                        assert(i == loop_pre.queue@[0]);
                        assert(stepped(entry.cos@[i], loop_pre.cos@[i]));
                        assert(loop_pre.cos@[i].handle.cancel.flag == entry.cos@[i].handle.cancel.flag);
                        assert(!(ev == RunEvent::CancelledOut(loop_pre.queue@[0])));
                        assert(ev == RunEvent::Completed(loop_pre.queue@[0]) || ev
                            == RunEvent::Overflowed(loop_pre.queue@[0]) || ev
                            == RunEvent::Yielded(loop_pre.queue@[0]) || ev == RunEvent::Slept(
                            loop_pre.queue@[0],
                        ));
                        if ev == RunEvent::Yielded(loop_pre.queue@[0]) {
                            assert(self.cos@[i].status == CoStatus::Ready);
                        }
                        if ev == RunEvent::Slept(loop_pre.queue@[0]) {
                            assert(self.cos@[i].status == CoStatus::Suspended);
                        }
                        assert(ev == RunEvent::Completed(loop_pre.queue@[0]));
                    }
                }
            }
            proof {
                match overflow {
                    Some(oi) => {
                        assert(stepped(loop_pre.cos@[oi as int], self.cos@[oi as int]));
                        assert(self.cos@[oi as int] == loop_pre.cos@[oi as int]);
                    },
                    None => {},
                }
            }
            match ev {
                RunEvent::Idle => {
                    let ghost fire_pre = *self;
                    let fired = self.fire_next();
                    proof {
                        assert forall|i: int|
                            0 <= i < entry.cos@.len() implies stepped(
                            entry.cos@[i],
                            #[trigger] self.cos@[i],
                        ) by {
                            lemma_stepped_trans(entry.cos@[i], fire_pre.cos@[i], self.cos@[i]);
                        }
                        match overflow {
                            Some(oi) => {
                                assert(stepped(fire_pre.cos@[oi as int], self.cos@[oi as int]));
                                assert(self.cos@[oi as int] == fire_pre.cos@[oi as int]);
                            },
                            None => {},
                        }
                    }
                    if !fired {
                        running = false;
                    }
                },
                RunEvent::Overflowed(i) => {
                    if overflow.is_none() {
                        overflow = Some(i);
                    }
                },
                _ => {},
            }
        }
        proof {
            assert forall|i: int|
                0 <= i < self.cos@.len() implies (#[trigger] self.cos@[i]).status
                == CoStatus::Done by {
                match self.cos@[i].status {
                    CoStatus::Ready => {
                        assert(self.queue@.contains(i as usize));
                        let qi = choose|qi: int|
                            0 <= qi < self.queue@.len() && self.queue@[qi] == i as usize;
                    },
                    CoStatus::Suspended => {
                        assert(self.in_wheels(i));
                        let (w, j) = choose|w: int, j: int|
                            0 <= w < self.wheels@.len() && 0 <= j
                                < self.wheels@[w].spec_entries().len() && (
                            #[trigger] self.wheels@[w].spec_entries()[j]).token == i;
                        lemma_load_nonzero(self.wheels@, w);
                    },
                    CoStatus::Done => {},
                }
            }
        }
        overflow
    }
}

impl<T> JoinHandle<T> {
    /// Waits for the coroutine behind this handle by running the
    /// scheduler until everything has completed, then claims its
    /// outcome: the value its body returned, or the panic payload it
    /// unwound with, or the cancellation error — whichever its state
    /// at the call already dictated.
    pub fn join(self, s: &mut Scheduler<T>) -> (r: Result<T, JoinError>)
        requires
            old(s).wf(),
            self.id < old(s).cos@.len(),
            !old(s).cos@[self.id as int].joined,
            old(s).queue@.len() + old(s).spec_total_work() + old(s).spec_timer_load()
                < 1_000_000_000,
        ensures
            final(s).wf(),
            final(s).cos@.len() == old(s).cos@.len(),
            final(s).workers == old(s).workers,
            final(s).queue@.len() == 0,
            final(s).spec_timer_load() == 0,
            final(s).spec_total_work() <= old(s).spec_total_work(),
            final(s).cos@[self.id as int].joined,
            forall|i: int|
                0 <= i < old(s).cos@.len() ==> (#[trigger] final(s).cos@[i]).status
                    == CoStatus::Done,
            forall|i: int|
                0 <= i < old(s).cos@.len() && i != self.id ==> stepped(
                    old(s).cos@[i],
                    #[trigger] final(s).cos@[i],
                ),
            ({
                let pre = old(s).cos@[self.id as int];
                if pre.status == CoStatus::Done {
                    Some(r) == pre.slot
                } else if pre.handle.cancel.flag {
                    r == Result::<T, JoinError>::Err(JoinError::Cancelled)
                } else {
                    match pre.end {
                        Some(TaskEnd::Return(v)) => r == Result::<T, JoinError>::Ok(v),
                        Some(TaskEnd::Panic(m)) => r == Result::<T, JoinError>::Err(
                            JoinError::Panicked(m),
                        ),
                        None => true,
                    }
                }
            }),
    {
        let _ = s.run_until_idle();
        let ghost pre = *s;
        let id = self.id;
        let co = co_mut(&mut s.cos, id);
        let slot = co.slot.take();
        co.joined = true;
        let r = match slot {
            Some(v) => v,
            None => {
                proof {
                    assert(pre.cos@[id as int].status == CoStatus::Done);
                    assert(false);
                }
                Err(JoinError::Cancelled)
            },
        };
        proof {
            assert(s.cos@ =~= pre.cos@.update(id as int, s.cos@[id as int]));
            lemma_total_work_update(pre.cos@, id as int, s.cos@[id as int]);
            assert(s.cos@[id as int].spec_work() == pre.cos@[id as int].spec_work());
            assert forall|i: int|
                0 <= i < old(s).cos@.len() && i != id implies stepped(
                old(s).cos@[i],
                #[trigger] s.cos@[i],
            ) by {
                assert(s.cos@[i] == pre.cos@[i]);
            }
            assert forall|w: int, j: int|
                0 <= w < s.wheels@.len() && 0 <= j < s.wheels@[w].spec_entries().len() implies {
                let tok = (#[trigger] s.wheels@[w].spec_entries()[j]).token;
                &&& (tok as int) < s.cos@.len()
                &&& s.cos@[tok as int].status == CoStatus::Suspended
                &&& s.cos@[tok as int].worker_thread_id == Some(w as usize)
            } by {
                assert(pre.cos@[s.wheels@[w].spec_entries()[j].token as int].status
                    == CoStatus::Suspended);
            }
            assert forall|cid: int|
                0 <= cid < s.cos@.len() implies match (#[trigger] s.cos@[cid]).status {
                CoStatus::Ready => s.queue@.contains(cid as usize),
                CoStatus::Suspended => s.in_wheels(cid),
                CoStatus::Done => true,
            } by {
                assert(pre.cos@[cid].status == CoStatus::Done);
            }
            assert(s.wf());
        }
        r
    }
}


impl Builder {
    /// Spawns as [`Builder::spawn`] does, but resumes the new
    /// coroutine once, immediately, before handing back the join
    /// handle: its first stretch runs now rather than waiting its
    /// turn in the queue.
    pub fn spawn_local<T>(self, s: &mut Scheduler<T>, task: TaskSpec<T>) -> (r: JoinHandle<T>)
        requires
            old(s).wf(),
            old(s).cos@.len() < 1_000_000_000,
            old(s).queue@.len() < 1_000_000_000,
            old(s).spec_timer_load() < 1_000_000_000,
        ensures
            final(s).wf(),
            r.id == old(s).cos@.len(),
            final(s).cos@.len() == old(s).cos@.len() + 1,
            forall|i: int| 0 <= i < old(s).cos@.len() ==> final(s).cos@[i] == old(s).cos@[i],
            final(s).cos@[r.id as int].pc == 1 || final(s).cos@[r.id as int].status
                == CoStatus::Done,
    {
        let ghost pre = *s;
        let h = self.spawn(s, task);
        let id = match s.queue.pop_back() {
            Some(id) => id,
            None => {
                proof {
                    assert(false);
                }
                0
            },
        };
        proof {
            assert(id == h.id);
            assert(s.queue@ =~= pre.queue@);
            assert forall|qi: int| 0 <= qi < s.queue@.len() implies (#[trigger] s.queue@[qi])
                != id by {
                assert(s.queue@[qi] < pre.cos@.len());
            }
            assert(!s.queue@.contains(id));
            assert(s.wf_at(id as int));
        }
        let ev = s.dispatch(id);
        h
    }
}

/// One park attempt of the coroutine behind `co`, with no deadline:
/// a stored wake-up token lets it proceed at once, cancellation fails
/// the attempt, and otherwise the coroutine is to suspend until an
/// unpark arrives.
pub fn park(co: &mut Coroutine) -> (r: crate::park::ParkDecision)
    ensures
        park_outcome(*old(co), *final(co), r),
{
    let (r, _) = park_timeout_impl(co, None);
    r
}

/// One park attempt with a deadline: as [`park`], except that when
/// the coroutine is told to wait, the returned span is the timer the
/// driver must arm; the wake-up then finishes through
/// [`Park::park_wake`], which turns an expired deadline into the
/// timeout error.
pub fn park_timeout(co: &mut Coroutine, dur: crate::time::Span) -> (r: (
    crate::park::ParkDecision,
    Option<crate::time::Span>,
))
    ensures
        park_outcome(*old(co), *final(co), r.0),
        r.0 == crate::park::ParkDecision::Wait ==> r.1 == Some(dur),
        r.0 != crate::park::ParkDecision::Wait ==> r.1 is None,
{
    park_timeout_impl(co, Some(dur))
}

/// What a park attempt does to the handle: cancellation wins over
/// everything, leaving the latch `Clean`; a stored token lets the
/// caller proceed; otherwise the coroutine suspends until an unpark.
pub open spec fn park_outcome(pre: Coroutine, post: Coroutine, r: crate::park::ParkDecision) -> bool {
    &&& post.cancel == pre.cancel
    &&& post.name == pre.name
    &&& post.stack_size == pre.stack_size
    &&& (pre.cancel.flag ==> r == crate::park::ParkDecision::Cancelled && post.park.state
        == crate::park::ParkState::Clean)
    &&& (!pre.cancel.flag && pre.park.state == crate::park::ParkState::Unparked ==> r
        == crate::park::ParkDecision::Proceed && post.park.state == crate::park::ParkState::Clean)
    &&& (!pre.cancel.flag && pre.park.state != crate::park::ParkState::Unparked ==> r
        == crate::park::ParkDecision::Wait && post.park.state == crate::park::ParkState::Waiting)
}

/// The shared body of [`park`] and [`park_timeout`]: beside the
/// attempt's decision it hands back the deadline the driver must arm
/// when the coroutine is to wait.
fn park_timeout_impl(co: &mut Coroutine, dur: Option<crate::time::Span>) -> (r: (
    crate::park::ParkDecision,
    Option<crate::time::Span>,
))
    ensures
        park_outcome(*old(co), *final(co), r.0),
        r.0 == crate::park::ParkDecision::Wait ==> r.1 == dur,
        r.0 != crate::park::ParkDecision::Wait ==> r.1 is None,
{
    let cancelled = co.cancel.is_canceled();
    let decision = co.park.park_attempt(cancelled);
    let arm = if matches!(decision, crate::park::ParkDecision::Wait) {
        dur
    } else {
        None
    };
    (decision, arm)
}

/// Whether the caller stands inside a coroutine.  This runtime keeps
/// its scheduling context explicit in a [`Scheduler`] value, so code
/// reached without one — any plain thread context — is outside every
/// coroutine.
pub fn is_coroutine() -> (r: bool)
    ensures
        !r,
{
    false
}


/// The user body and its ending run at most once: a coroutine that
/// has completed is never touched by a later scheduling step, so its
/// join slot, written at the completing step, is never written
/// again.
pub proof fn lemma_at_most_once<T>(pre: CoroutineImpl<T>, post: CoroutineImpl<T>)
    requires
        stepped(pre, post),
        pre.status == CoStatus::Done,
    ensures
        post == pre,
        post.slot == pre.slot,
{
}

/// Once a coroutine has been resumed it is pinned: every scheduling
/// step keeps it on the worker of its first resume.
pub proof fn lemma_pinning<T>(pre: CoroutineImpl<T>, post: CoroutineImpl<T>, w: usize)
    requires
        stepped(pre, post),
        pre.worker_thread_id == Some(w),
    ensures
        post.worker_thread_id == Some(w),
{
}


/// Spawn sugar: a value of configuration — a stack size, a name, or
/// a pair of both — that can spawn a coroutine directly.
pub trait Spawn: Sized {
    /// Spawns a coroutine running `task`, configured by `self`.
    fn spawn<T>(self, s: &mut Scheduler<T>, task: TaskSpec<T>) -> (r: JoinHandle<T>)
        requires
            old(s).wf(),
            old(s).cos@.len() < 1_000_000_000,
        ensures
            final(s).wf(),
            r.id == old(s).cos@.len(),
            final(s).cos@.len() == old(s).cos@.len() + 1,
    ;
}

impl Spawn for i32 {
    /// The value is the stack size of the coroutine-to-be.
    fn spawn<T>(self, s: &mut Scheduler<T>, task: TaskSpec<T>) -> (r: JoinHandle<T>) {
        Builder::new().stack_size(self as usize).spawn(s, task)
    }
}

impl Spawn for &str {
    /// The value is the name of the coroutine-to-be.
    fn spawn<T>(self, s: &mut Scheduler<T>, task: TaskSpec<T>) -> (r: JoinHandle<T>) {
        Builder::new().name(self.to_owned()).spawn(s, task)
    }
}

impl Spawn for String {
    /// The value is the name of the coroutine-to-be.
    fn spawn<T>(self, s: &mut Scheduler<T>, task: TaskSpec<T>) -> (r: JoinHandle<T>) {
        Builder::new().name(self).spawn(s, task)
    }
}

impl Spawn for (&str, i32) {
    /// The pair is the name and the stack size of the coroutine-to-be.
    fn spawn<T>(self, s: &mut Scheduler<T>, task: TaskSpec<T>) -> (r: JoinHandle<T>) {
        Builder::new().name(self.0.to_owned()).stack_size(self.1 as usize).spawn(s, task)
    }
}

impl Spawn for Builder {
    /// The builder spawns with its own configuration.
    fn spawn<T>(self, s: &mut Scheduler<T>, task: TaskSpec<T>) -> (r: JoinHandle<T>) {
        Builder::spawn(self, s, task)
    }
}


} // verus!
