use mco::scheduler::{spawn, JoinHandle, RunEvent, Scheduler};
use mco::Spawn;
use mco::time::Span;
use mco::{
    is_coroutine, park, park_timeout, Builder, Cancel, CancelIoData, ChanModel, CoStatus,
    Coroutine, JoinError, Park, ParkDecision, ParkError, ParkState, SendPoll, Step, TaskEnd,
    TaskSpec,
};

fn plain_task(yields: usize, value: i64) -> TaskSpec<i64> {
    TaskSpec { steps: vec![Step::Yield; yields], end: TaskEnd::Return(value), stack_need: 64 }
}

#[test]
fn s1_ten_thousand_coroutines_resolve_to_their_index() {
    let mut s: Scheduler<i64> = Scheduler::new(4);
    let mut handles: Vec<JoinHandle<i64>> = Vec::new();
    for i in 0..10_000i64 {
        handles.push(spawn(&mut s, plain_task(100, i)));
    }
    assert!(s.run_until_idle().is_none());
    let mut expected: i64 = 0;
    for h in handles {
        match h.join(&mut s) {
            Ok(v) => assert_eq!(v, expected),
            Err(_) => panic!("coroutine failed"),
        }
        expected += 1;
    }
}

#[test]
fn s2_bounded_channel_parks_sender_and_keeps_order() {
    let mut c: ChanModel<i32> = ChanModel::new_bounded(1);
    let mut timeline: Vec<&str> = Vec::new();
    let mut received: Vec<i32> = Vec::new();

    assert!(matches!(c.send(1), SendPoll::Stored));
    timeline.push("send 1");
    let parked2 = match c.send(2) {
        SendPoll::Full(v) => {
            timeline.push("sender parks at 2");
            v
        },
        SendPoll::Stored => panic!("capacity ignored"),
    };
    received.push(c.recv().unwrap());
    timeline.push("recv");
    assert!(matches!(c.send(parked2), SendPoll::Stored));
    timeline.push("sender resumes, send 2");
    let parked3 = match c.send(3) {
        SendPoll::Full(v) => v,
        SendPoll::Stored => panic!("capacity ignored"),
    };
    received.push(c.recv().unwrap());
    assert!(matches!(c.send(parked3), SendPoll::Stored));
    received.push(c.recv().unwrap());
    assert_eq!(received, vec![1, 2, 3]);
    assert_eq!(timeline[1], "sender parks at 2");
}

#[test]
fn s3_select_resolves_to_the_ready_channel_arm() {
    // Arm 0: a channel receive that becomes ready at t=50ms.
    // Arm 1: a 100ms sleep.
    let mut q = mco::CQueue::new(2);
    let mut wheel = mco::TimerWheel::new();
    wheel.insert(100, 1);
    // The channel value arrives first: its arm posts first and wins.
    assert!(q.post(0));
    // The timer has not fired; when the sleep arm is cancelled its
    // entry leaves the wheel without firing.
    let dropped = wheel.remove_token(1);
    assert!(dropped.is_some());
    assert_eq!(wheel.len(), 0);
    // A late post from the losing arm changes nothing.
    assert!(!q.post(1));
    assert_eq!(q.winner(), Some(0));
}

#[test]
fn s4_cancel_cuts_a_long_sleep_short() {
    let mut s: Scheduler<i64> = Scheduler::new(1);
    let h = spawn(
        &mut s,
        TaskSpec { steps: vec![Step::Sleep(10_000)], end: TaskEnd::Return(7), stack_need: 64 },
    );
    // The coroutine starts its sleep...
    assert!(matches!(s.run_next(), RunEvent::Slept(_)));
    // ...and is cancelled immediately afterwards.
    s.cancel(h.id);
    let r = h.join(&mut s);
    assert!(matches!(r, Err(JoinError::Cancelled)));
    // The join resolved without waiting out the ten seconds.
    assert!(s.now < 10_000);
}

#[test]
fn s5_two_workers_complete_a_burst_of_short_tasks() {
    let mut s: Scheduler<i64> = Scheduler::new(2);
    let mut handles: Vec<JoinHandle<i64>> = Vec::new();
    for i in 0..1000i64 {
        handles.push(spawn(&mut s, plain_task(0, i)));
    }
    assert!(s.run_until_idle().is_none());
    let mut expected: i64 = 0;
    for h in handles {
        assert_eq!(h.join(&mut s).unwrap(), expected);
        expected += 1;
    }
}

#[test]
fn s6_a_panicking_coroutine_surfaces_through_join_only() {
    let mut s: Scheduler<i64> = Scheduler::new(1);
    let bad = spawn(
        &mut s,
        TaskSpec {
            steps: vec![Step::Yield],
            end: TaskEnd::Panic("boom".to_string()),
            stack_need: 64,
        },
    );
    let good = spawn(&mut s, plain_task(3, 11));
    assert!(s.run_until_idle().is_none());
    match bad.join(&mut s) {
        Err(JoinError::Panicked(m)) => assert_eq!(m, "boom"),
        _ => panic!("panic payload lost"),
    }
    // The worker went on scheduling the other coroutine.
    assert_eq!(good.join(&mut s).unwrap(), 11);
}

#[test]
fn p3_a_coroutine_stays_on_its_first_worker() {
    let mut s: Scheduler<i64> = Scheduler::new(3);
    let h = spawn(&mut s, plain_task(5, 1));
    assert!(matches!(s.run_next(), RunEvent::Yielded(_)));
    let pinned = s.cos[h.id].worker_thread_id;
    assert!(pinned.is_some());
    while !matches!(s.run_next(), RunEvent::Completed(_)) {}
    assert_eq!(s.cos[h.id].worker_thread_id, pinned);
}

#[test]
fn p4_the_run_queue_is_first_in_first_out() {
    let mut s: Scheduler<i64> = Scheduler::new(1);
    let a = spawn(&mut s, plain_task(0, 1));
    let b = spawn(&mut s, plain_task(0, 2));
    let c = spawn(&mut s, plain_task(0, 3));
    assert!(matches!(s.run_next(), RunEvent::Completed(i) if i == a.id));
    assert!(matches!(s.run_next(), RunEvent::Completed(i) if i == b.id));
    assert!(matches!(s.run_next(), RunEvent::Completed(i) if i == c.id));
}

#[test]
fn p5_timers_fire_in_deadline_order() {
    let mut w = mco::TimerWheel::new();
    w.insert(300, 3);
    w.insert(100, 1);
    w.insert(200, 2);
    let first = w.pop_due(1000).unwrap();
    let second = w.pop_due(1000).unwrap();
    let third = w.pop_due(1000).unwrap();
    assert_eq!((first.deadline, first.token), (100, 1));
    assert_eq!((second.deadline, second.token), (200, 2));
    assert_eq!((third.deadline, third.token), (300, 3));
    assert!(w.pop_due(1000).is_none());
}

#[test]
fn p5_sleep_order_on_one_worker() {
    let mut s: Scheduler<i64> = Scheduler::new(1);
    let slow = spawn(
        &mut s,
        TaskSpec { steps: vec![Step::Sleep(200)], end: TaskEnd::Return(2), stack_need: 0 },
    );
    let fast = spawn(
        &mut s,
        TaskSpec { steps: vec![Step::Sleep(100)], end: TaskEnd::Return(1), stack_need: 0 },
    );
    assert!(matches!(s.run_next(), RunEvent::Slept(_)));
    assert!(matches!(s.run_next(), RunEvent::Slept(_)));
    // The earlier deadline fires first even though it was armed second.
    assert!(s.fire_next());
    assert!(matches!(s.run_next(), RunEvent::Completed(i) if i == fast.id));
    assert!(s.fire_next());
    assert!(matches!(s.run_next(), RunEvent::Completed(i) if i == slow.id));
    assert_eq!(fast.join(&mut s).unwrap(), 1);
    assert_eq!(slow.join(&mut s).unwrap(), 2);
}

#[test]
fn p6_cancellation_is_seen_at_the_next_suspension() {
    let mut c = Cancel::new();
    assert!(c.check_cancel().is_ok());
    c.set_io(CancelIoData::new(42));
    let token = c.cancel();
    assert_eq!(token, Some(CancelIoData::new(42)));
    assert!(c.check_cancel().is_err());
    // Cancellation is monotone: clearing an io slot does not unset it.
    c.clear_io();
    assert!(c.is_canceled());
}

#[test]
fn p6_cancelled_coroutine_fails_at_next_resume() {
    let mut s: Scheduler<i64> = Scheduler::new(1);
    let h = spawn(&mut s, plain_task(10, 5));
    assert!(matches!(s.run_next(), RunEvent::Yielded(_)));
    s.cancel(h.id);
    // The next resume observes the flag and completes cancelled.
    assert!(matches!(s.run_next(), RunEvent::CancelledOut(i) if i == h.id));
    assert!(matches!(h.join(&mut s), Err(JoinError::Cancelled)));
}

#[test]
fn p7_channel_is_fifo_per_sender() {
    let mut c: ChanModel<&str> = ChanModel::new_unbounded();
    assert!(matches!(c.send("a"), SendPoll::Stored));
    assert!(matches!(c.send("b"), SendPoll::Stored));
    assert!(matches!(c.send("c"), SendPoll::Stored));
    assert_eq!(c.recv(), Some("a"));
    assert_eq!(c.recv(), Some("b"));
    assert_eq!(c.recv(), Some("c"));
    assert_eq!(c.recv(), None);
    assert_eq!(c.remain(), 0);
}

#[test]
fn p8_exactly_one_select_arm_wins() {
    let mut q = mco::CQueue::new(3);
    assert_eq!(q.winner(), None);
    assert!(q.post(2));
    assert!(!q.post(0));
    assert!(!q.post(1));
    assert_eq!(q.winner(), Some(2));
    assert_eq!(mco::select_first(&vec![false, true, true]), Some(1));
    assert_eq!(mco::select_first(&vec![false, false]), None);
}

#[test]
fn p9_a_full_stack_aborts_at_cleanup() {
    let mut s: Scheduler<i64> = Scheduler::new(1);
    let h = Builder::new().stack_size(1024).spawn(
        &mut s,
        TaskSpec { steps: Vec::new(), end: TaskEnd::Return(1), stack_need: 1024 },
    );
    let verdict = s.run_until_idle();
    assert_eq!(verdict, Some(h.id));
    // A coroutine that stays under its stack is recycled quietly.
    let mut s2: Scheduler<i64> = Scheduler::new(1);
    let _h2 = Builder::new().stack_size(1024).spawn(
        &mut s2,
        TaskSpec { steps: Vec::new(), end: TaskEnd::Return(1), stack_need: 1023 },
    );
    assert!(s2.run_until_idle().is_none());
}

#[test]
fn park_gate_transitions() {
    let mut p = Park::new();
    assert_eq!(p.state, ParkState::Clean);
    // An unpark ahead of the park lets the park proceed at once.
    let woke = p.unpark();
    assert!(!woke);
    assert_eq!(p.park_attempt(false), ParkDecision::Proceed);
    assert_eq!(p.state, ParkState::Clean);
    // Without a token the coroutine waits; the unpark then wakes it.
    assert_eq!(p.park_attempt(false), ParkDecision::Wait);
    assert_eq!(p.state, ParkState::Waiting);
    assert!(p.unpark());
    // A cancelled coroutine never waits.
    assert_eq!(p.park_attempt(true), ParkDecision::Cancelled);
}

#[test]
fn park_on_a_handle_observes_cancel() {
    let mut co = Coroutine::new(Some("worker".to_string()), 4096);
    assert_eq!(co.name(), Some("worker"));
    assert_eq!(co.stack_size(), 4096);
    assert_eq!(park(&mut co), ParkDecision::Wait);
    co.unpark();
    assert_eq!(park_timeout(&mut co, Span::from_millis(5)), (ParkDecision::Proceed, None));
    // Telling the coroutine to wait hands the driver the timer to arm.
    assert_eq!(
        park_timeout(&mut co, Span::from_millis(5)),
        (ParkDecision::Wait, Some(Span::from_millis(5)))
    );
    // The deadline expires first: the park fails with the timeout.
    assert_eq!(co.park.park_wake(true, false), Err(ParkError::Timeout));
    // An unpark that lands while waiting wins over the deadline.
    assert_eq!(park(&mut co), ParkDecision::Wait);
    co.unpark();
    assert_eq!(co.park.park_wake(true, false), Ok(()));
    co.cancel();
    assert_eq!(park(&mut co), ParkDecision::Cancelled);
    assert!(!is_coroutine());
}

#[test]
fn spawn_sugar_configures_the_coroutine() {
    let mut s: Scheduler<i64> = Scheduler::new(1);
    let by_size = 4096i32.spawn(&mut s, plain_task(0, 1));
    let by_name = "ticker".spawn(&mut s, plain_task(0, 2));
    let by_both = ("pump", 2048i32).spawn(&mut s, plain_task(0, 3));
    assert_eq!(s.cos[by_size.id].handle.stack_size(), 4096);
    assert_eq!(s.cos[by_name.id].handle.name(), Some("ticker"));
    assert_eq!(s.cos[by_both.id].handle.name(), Some("pump"));
    assert_eq!(s.cos[by_both.id].handle.stack_size(), 2048);
    assert!(s.run_until_idle().is_none());
    assert_eq!(by_size.join(&mut s).unwrap(), 1);
    assert_eq!(by_name.join(&mut s).unwrap(), 2);
    assert_eq!(by_both.join(&mut s).unwrap(), 3);
}

#[test]
fn builder_names_and_sizes_the_coroutine() {
    let mut s: Scheduler<i64> = Scheduler::new(1);
    let h = Builder::new()
        .name("worker".to_string())
        .stack_size(8192)
        .spawn(&mut s, plain_task(0, 9));
    assert_eq!(s.cos[h.id].handle.stack_size(), 8192);
    assert_eq!(s.cos[h.id].handle.name(), Some("worker"));
    assert!(s.run_until_idle().is_none());
    assert_eq!(h.join(&mut s).unwrap(), 9);
}

#[test]
fn spawn_local_runs_the_first_stretch_at_once() {
    let mut s: Scheduler<i64> = Scheduler::new(1);
    let h = Builder::new().spawn_local(&mut s, plain_task(2, 4));
    // Its first stretch already ran: one yield consumed.
    assert_eq!(s.cos[h.id].pc, 1);
    assert_eq!(h.join(&mut s).unwrap(), 4);
}

#[test]
fn done_gate_checks_the_high_water_mark() {
    let mut st = mco::Stack::new(100);
    assert_eq!(st.stack_usage(), (100, 0));
    st.record_use(40);
    st.record_use(20);
    assert_eq!(st.stack_usage(), (100, 40));
    assert!(!st.is_overflowed());
    st.record_use(100);
    assert!(st.is_overflowed());
}

#[test]
fn reg_context_records_the_frame() {
    let st = mco::Stack::new(4096);
    let ctx = mco::RegContext::new(7, 13, 17, &st);
    assert_eq!(ctx.sp, 4096);
    assert_eq!(ctx.arg, 13);
    assert_eq!(ctx.start, 17);
    let mut empty = mco::RegContext::empty();
    assert_eq!(empty.ip, 0);
    empty.init_with(7, 13, 17, &st);
    empty.prefetch();
    assert_eq!(empty.ip, 7);
}

#[test]
fn completion_resolves_every_handle() {
    let mut s: Scheduler<i64> = Scheduler::new(2);
    let sleeper = spawn(
        &mut s,
        TaskSpec {
            steps: vec![Step::Sleep(50), Step::Yield, Step::Sleep(10)],
            end: TaskEnd::Return(1),
            stack_need: 0,
        },
    );
    let yielder = spawn(&mut s, plain_task(7, 2));
    assert!(s.run_until_idle().is_none());
    assert_eq!(sleeper.join(&mut s).unwrap(), 1);
    assert_eq!(yielder.join(&mut s).unwrap(), 2);
    assert_eq!(s.cos[0].status, CoStatus::Done);
    assert_eq!(s.cos[1].status, CoStatus::Done);
}

#[test]
fn reduced_stacks_round_trip() {
    let mut s: Scheduler<i64> = Scheduler::new(1);
    let h = spawn(&mut s, plain_task(1, 3));
    assert!(matches!(s.run_next(), RunEvent::Yielded(_)));
    let co = &mut s.cos[h.id];
    co.stack.record_use(700);
    // Compacting hands the full region back and keeps the live count.
    let released = co.stack_reduce().unwrap();
    assert_eq!(released.stack_usage().1, 700);
    assert_eq!(co.reduce, Some(700));
    // A second compaction changes nothing.
    assert!(co.stack_reduce().is_none());
    // Restoring writes the copy back onto a region from the cache.
    assert!(co.stack_restore(released).is_none());
    assert_eq!(co.reduce, None);
    assert_eq!(co.stack.stack_usage().1, 700);
    // Without a pending copy the offered region is handed back.
    let spare = mco::Stack::new(64);
    assert_eq!(co.stack_restore(spare), Some(spare));
    assert_eq!(h.join(&mut s).unwrap(), 3);
}
