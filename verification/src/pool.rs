use crate::errors::Error;
use vstd::prelude::*;

verus! {

/// One unit of work for the pool.
pub struct Task<F> {
    pub f: F,
}

impl<F: Fn() -> Result<(), Error>> Task<F> {
    /// Wraps a closure as a task.
    pub fn new(f: F) -> (r: Task<F>)
        ensures
            r.f == f,
    {
        Task { f }
    }

    /// Runs the task once.
    pub fn execute(&self) -> (r: Result<(), Error>)
        requires
            self.f.requires(()),
        ensures
            self.f.ensures((), r),
    {
        (self.f)()
    }
}

/// A pool of workers fed from one queue of tasks.  A `None` on the
/// queue is the stop token: the run loop executes every task ahead
/// of it, in order, and exits when it takes it.  Exclusive access
/// (`&mut self`) stands for the channel that feeds the workers.
pub struct Pool<F> {
    pub worker_num: i32,
    pub idle: Vec<Option<Task<F>>>,
    pub bound: Option<usize>,
    pub closed: bool,
}

/// Where the run loop stops in a task queue: just past the first
/// stop token, or at the end when no stop token is queued.
pub open spec fn first_stop<F>(q: Seq<Option<Task<F>>>) -> int
    decreases q.len(),
{
    if q.len() == 0 {
        0
    } else if q[0] is None {
        1
    } else {
        1 + first_stop(q.skip(1))
    }
}

impl<F: Fn() -> Result<(), Error>> Pool<F> {
    /// The queued work, oldest first.
    pub closed spec fn spec_queue(&self) -> Seq<Option<Task<F>>> {
        self.idle@
    }

    /// The bound of the bounded variant.
    pub closed spec fn spec_bound(&self) -> Option<usize> {
        self.bound
    }

    /// Whether a run loop has exited.
    pub closed spec fn spec_closed(&self) -> bool {
        self.closed
    }

    /// A pool with an unbounded queue.
    pub fn new(worker_num: i32) -> (r: Pool<F>)
        ensures
            r.worker_num == worker_num,
            r.spec_queue() =~= Seq::<Option<Task<F>>>::empty(),
            r.spec_bound() is None,
            !r.spec_closed(),
    {
        Pool { worker_num, idle: Vec::new(), bound: None, closed: false }
    }

    /// A pool whose queue holds at most `waiter_num` entries; a
    /// sender with a full queue waits for a worker.
    pub fn new_bounded(worker_num: i32, waiter_num: i32) -> (r: Pool<F>)
        requires
            waiter_num >= 0,
        ensures
            r.worker_num == worker_num,
            r.spec_queue() =~= Seq::<Option<Task<F>>>::empty(),
            r.spec_bound() == Some(waiter_num as usize),
            !r.spec_closed(),
    {
        Pool { worker_num, idle: Vec::new(), bound: Some(waiter_num as usize), closed: false }
    }

    /// Queues a task.  The caller of the bounded variant holds back
    /// (parks) while the queue is full, so room is a precondition
    /// here.
    pub fn put(&mut self, task: Task<F>)
        requires
            old(self).spec_bound() matches Some(c) ==> old(self).spec_queue().len() < c,
            old(self).spec_queue().len() < usize::MAX,
        ensures
            final(self).spec_queue() == old(self).spec_queue().push(Some(task)),
            final(self).spec_bound() == old(self).spec_bound(),
            final(self).spec_closed() == old(self).spec_closed(),
            final(self).worker_num == old(self).worker_num,
    {
        self.idle.push(Some(task));
    }

    /// Closes right now: every task still queued is discarded and the
    /// stop token is queued, so a run loop exits without doing more
    /// work.
    pub fn close(&mut self)
        ensures
            final(self).spec_queue() =~= seq![Option::<Task<F>>::None],
            final(self).spec_bound() == old(self).spec_bound(),
            final(self).spec_closed() == old(self).spec_closed(),
            final(self).worker_num == old(self).worker_num,
    {
        self.idle.clear();
        self.idle.push(None);
    }

    /// Closes once the queued work is done: the stop token joins the
    /// back of the queue behind every pending task.
    pub fn close_finish(&mut self)
        requires
            old(self).spec_queue().len() < usize::MAX,
        ensures
            final(self).spec_queue() == old(self).spec_queue().push(None),
            final(self).spec_bound() == old(self).spec_bound(),
            final(self).spec_closed() == old(self).spec_closed(),
            final(self).worker_num == old(self).worker_num,
    {
        self.idle.push(None);
    }

    /// Whether a run loop has exited.
    pub fn is_close(&self) -> (r: bool)
        ensures
            r == self.spec_closed(),
    {
        self.closed
    }

    /// The run loop: takes queue entries in order, executing each
    /// task, until it takes the stop token or drains the queue; then
    /// the pool is marked closed.  A failing task does not stop the
    /// loop.
    pub fn run(&mut self)
        requires
            forall|i: int|
                0 <= i < old(self).spec_queue().len() ==> ((#[trigger] old(self).spec_queue()[i])
                    matches Some(t) ==> t.f.requires(())),
        ensures
            final(self).spec_closed(),
            final(self).spec_queue() =~= old(self).spec_queue().skip(
                first_stop(old(self).spec_queue()),
            ),
            final(self).spec_bound() == old(self).spec_bound(),
            final(self).worker_num == old(self).worker_num,
    {
        let ghost q0 = self.spec_queue();
        let ghost mut k: int = 0;
        loop
            invariant_except_break
                first_stop(q0) == k + first_stop(self.spec_queue()),
            invariant
                self.spec_bound() == old(self).spec_bound(),
                self.worker_num == old(self).worker_num,
                self.spec_closed() == old(self).spec_closed(),
                forall|i: int|
                    0 <= i < q0.len() ==> ((#[trigger] q0[i]) matches Some(t) ==> t.f.requires(
                        (),
                    )),
                0 <= k <= q0.len(),
                self.spec_queue() =~= q0.skip(k),
            ensures
                self.spec_queue() =~= q0.skip(first_stop(q0)),
                self.spec_bound() == old(self).spec_bound(),
                self.worker_num == old(self).worker_num,
                self.spec_closed() == old(self).spec_closed(),
            decreases q0.len() - k,
        {
            if self.idle.len() == 0 {
                proof {
                    assert(first_stop(self.spec_queue()) == 0);
                }
                break ;
            }
            let ghost prev = self.spec_queue();
            let entry = self.idle.remove(0);
            proof {
                k = k + 1;
                assert forall|i: int| 0 <= i < self.spec_queue().len() implies #[trigger] self.spec_queue()[i]
                    == q0.skip(k)[i] by {
                    assert(self.spec_queue()[i] == prev[i + 1]);
                    assert(prev[i + 1] == q0[k - 1 + (i + 1)]);
                }
                assert(self.spec_queue() =~= q0.skip(k));
            }
            match entry {
                None => {
                    proof {
                        assert(prev[0] is None);
                        assert(first_stop(prev) == 1);
                    }
                    break ;
                },
                Some(task) => {
                    proof {
                        assert(prev[0] is Some);
                        assert(first_stop(prev) == 1 + first_stop(prev.skip(1)));
                        assert(prev.skip(1) =~= self.spec_queue());
                        assert(prev[0] == q0[k - 1]);
                    }
                    let _ = task.execute();
                },
            }
        }
        self.closed = true;
    }
}

} // verus!
