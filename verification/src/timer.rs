use vstd::prelude::*;

verus! {

/// One pending deadline: when it is due and which waiter it belongs
/// to.
#[derive(Clone, Copy, Debug, PartialEq, Eq, Structural)]
pub struct TimerEntry {
    pub deadline: u64,
    pub token: u64,
}

/// A worker's timer wheel: the pending deadline entries beside the
/// deadline that fired last.  Entries are kept unordered, as the
/// hashed wheel keeps them; what firing order guarantees is stated on
/// [`TimerWheel::pop_due`].
pub struct TimerWheel {
    entries: Vec<TimerEntry>,
    last_fired: u64,
}

impl TimerWheel {
    /// The pending entries.
    pub closed spec fn spec_entries(&self) -> Seq<TimerEntry> {
        self.entries@
    }

    /// The deadline that fired last (0 before any fired).
    pub closed spec fn spec_last_fired(&self) -> u64 {
        self.last_fired
    }

    /// No pending deadline lies before the one that fired last, so
    /// firing order can never fall back.
    pub open spec fn wf(&self) -> bool {
        forall|i: int|
            0 <= i < self.spec_entries().len() ==> (#[trigger] self.spec_entries()[i]).deadline
                >= self.spec_last_fired()
    }

    /// An empty wheel.
    pub fn new() -> (r: TimerWheel)
        ensures
            r.wf(),
            r.spec_entries() =~= Seq::<TimerEntry>::empty(),
            r.spec_last_fired() == 0,
    {
        TimerWheel { entries: Vec::new(), last_fired: 0 }
    }

    /// How many deadlines are pending.
    pub fn len(&self) -> (r: usize)
        ensures
            r == self.spec_entries().len(),
    {
        self.entries.len()
    }

    /// Registers a deadline.  It must not lie before the deadline
    /// that fired last; the scheduler guarantees that by never
    /// letting its clock fall behind a fired deadline.
    pub fn insert(&mut self, deadline: u64, token: u64)
        requires
            old(self).wf(),
            deadline >= old(self).spec_last_fired(),
            old(self).spec_entries().len() < usize::MAX,
        ensures
            final(self).wf(),
            final(self).spec_entries() == old(self).spec_entries().push(
                TimerEntry { deadline, token },
            ),
            final(self).spec_last_fired() == old(self).spec_last_fired(),
    {
        self.entries.push(TimerEntry { deadline, token });
    }

    /// The position of a pending entry with the smallest deadline, or
    /// `None` on an empty wheel.
    fn min_index(&self) -> (r: Option<usize>)
        ensures
            r is None <==> self.spec_entries().len() == 0,
            r matches Some(i) ==> i < self.spec_entries().len() && forall|j: int|
                0 <= j < self.spec_entries().len() ==> self.spec_entries()[i as int].deadline <= (
                #[trigger] self.spec_entries()[j]).deadline,
    {
        if self.entries.len() == 0 {
            return None;
        }
        let mut best: usize = 0;
        let mut j: usize = 1;
        while j < self.entries.len()
            invariant
                best < j <= self.entries@.len(),
                forall|t: int|
                    0 <= t < j ==> self.entries@[best as int].deadline <= (
                    #[trigger] self.entries@[t]).deadline,
            decreases self.entries@.len() - j,
        {
            if self.entries[j].deadline < self.entries[best].deadline {
                best = j;
            }
            j = j + 1;
        }
        Some(best)
    }

    /// The smallest pending deadline, or `None` on an empty wheel.
    pub fn min_deadline(&self) -> (r: Option<u64>)
        ensures
            r is None <==> self.spec_entries().len() == 0,
            r matches Some(d) ==> (exists|i: int|
                0 <= i < self.spec_entries().len() && (#[trigger] self.spec_entries()[i]).deadline
                    == d) && forall|j: int|
                0 <= j < self.spec_entries().len() ==> (#[trigger] self.spec_entries()[j]).deadline
                    >= d,
    {
        match self.min_index() {
            None => None,
            Some(i) => Some(self.entries[i].deadline),
        }
    }

    /// Takes out and fires the entry that is due next, if any is due
    /// by `now`.  The fired deadline is the smallest pending one, it
    /// never lies before the previously fired deadline, and it
    /// becomes the new fired mark: per wheel, deadlines fire in
    /// non-decreasing order, so of two timers the earlier one never
    /// fires after the later one.
    pub fn pop_due(&mut self, now: u64) -> (r: Option<TimerEntry>)
        requires
            old(self).wf(),
        ensures
            final(self).wf(),
            r is None ==> final(self).spec_entries() == old(self).spec_entries()
                && final(self).spec_last_fired() == old(self).spec_last_fired() && forall|i: int|
                0 <= i < old(self).spec_entries().len() ==> (
                #[trigger] old(self).spec_entries()[i]).deadline > now,
            r matches Some(e) ==> {
                &&& e.deadline <= now
                &&& e.deadline >= old(self).spec_last_fired()
                &&& final(self).spec_last_fired() == e.deadline
                &&& exists|i: int|
                    0 <= i < old(self).spec_entries().len() && old(self).spec_entries()[i] == e
                        && final(self).spec_entries() == old(self).spec_entries().remove(i)
                &&& forall|j: int|
                    0 <= j < old(self).spec_entries().len() ==> e.deadline <= (
                    #[trigger] old(self).spec_entries()[j]).deadline
            },
    {
        match self.min_index() {
            None => None,
            Some(i) => {
                if self.entries[i].deadline <= now {
                    let e = self.entries.remove(i);
                    self.last_fired = e.deadline;
                    proof {
                        assert forall|t: int|
                            0 <= t < self.spec_entries().len() implies (
                        #[trigger] self.spec_entries()[t]).deadline >= self.spec_last_fired() by {
                            if t < i {
                                assert(self.spec_entries()[t] == old(self).spec_entries()[t]);
                            } else {
                                assert(self.spec_entries()[t] == old(self).spec_entries()[t + 1]);
                            }
                        }
                    }
                    Some(e)
                } else {
                    None
                }
            },
        }
    }

    /// Removes the pending entry carrying `token`, if one is pending:
    /// this is how an abandoned wait leaves the wheel.  Removal is
    /// idempotent: with no such entry the wheel is left as it is.
    pub fn remove_token(&mut self, token: u64) -> (r: Option<TimerEntry>)
        requires
            old(self).wf(),
        ensures
            final(self).wf(),
            final(self).spec_last_fired() == old(self).spec_last_fired(),
            r is None ==> final(self).spec_entries() == old(self).spec_entries() && forall|i: int|
                0 <= i < old(self).spec_entries().len() ==> (
                #[trigger] old(self).spec_entries()[i]).token != token,
            r matches Some(e) ==> e.token == token && exists|i: int|
                0 <= i < old(self).spec_entries().len() && old(self).spec_entries()[i] == e
                    && final(self).spec_entries() == old(self).spec_entries().remove(i),
    {
        let mut j: usize = 0;
        while j < self.entries.len()
            invariant
                old(self).wf(),
                self.spec_entries() == old(self).spec_entries(),
                self.spec_last_fired() == old(self).spec_last_fired(),
                j <= self.entries@.len(),
                forall|t: int| 0 <= t < j ==> (#[trigger] self.entries@[t]).token != token,
            decreases self.entries@.len() - j,
        {
            if self.entries[j].token == token {
                let e = self.entries.remove(j);
                proof {
                    assert forall|t: int|
                        0 <= t < self.spec_entries().len() implies (
                    #[trigger] self.spec_entries()[t]).deadline >= self.spec_last_fired() by {
                        if t < j {
                            assert(self.spec_entries()[t] == old(self).spec_entries()[t]);
                        } else {
                            assert(self.spec_entries()[t] == old(self).spec_entries()[t + 1]);
                        }
                    }
                }
                return Some(e);
            }
            j = j + 1;
        }
        None
    }
}

} // verus!
