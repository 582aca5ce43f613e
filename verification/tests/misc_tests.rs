use mco::pool::{Pool, Task};
use mco::time::Span;
use mco::{
    bounded, channel, config, index, index_func, io_wait_step, new, CoroutinePool, Error,
    IoWaitStep, Once, SyncWrapper, Ticker, TryRecvError, TrySendError,
};
use std::cell::Cell;
use std::rc::Rc;

#[test]
fn test_tick() {
    let mut t = Ticker::new(Span::from_secs(1));
    assert_eq!(t.next_deadline(0), Some(1000));
    assert_eq!(t.next_deadline(500), Some(1500));
    let _ = t.stop();
    assert_eq!(t.next_deadline(500), None);
    let _ = t.reset(Span::from_millis(250));
    assert_eq!(t.next_deadline(1000), Some(1250));
}

#[test]
fn string_index_finds_first_occurrence() {
    assert_eq!(index("chicken", "ken"), 4);
    assert_eq!(index("chicken", "hen"), -1);
    assert_eq!(index("", ""), 0);
    assert_eq!(index("abcabc", "bc"), 1);
    // offsets are byte offsets: the two-byte letter shifts the match
    assert_eq!(index("a\u{00df}b", "b"), 3);
    assert_eq!(index_func("k8s", |c: char| c.is_ascii_digit()), 1);
    assert_eq!(index_func("abc", |c: char| c.is_ascii_digit()), -1);
}

#[test]
fn errors_carry_their_text() {
    let e = new("boom".to_string());
    assert_eq!(e.error(), "boom");
    assert_eq!(e.to_string(), "boom");
    let wrapped = Error::warp(7, "failed with ");
    assert_eq!(wrapped.to_string(), "failed with 7");
}

#[test]
fn config_knobs() {
    let mut c = config();
    assert_eq!(c.get_stack_size(), 6 * 1024 * 1024);
    c.set_stack_size(4096);
    assert_eq!(c.get_stack_size(), 4096);
    c.set_workers(3);
    assert_eq!(c.get_workers(), 3);
    c.set_workers(0);
    assert!(c.get_workers() >= 1);
}

#[test]
fn once_runs_the_action_once() {
    let counter = Rc::new(Cell::new(0));
    let mut once = Once::new();
    let c1 = counter.clone();
    once.call(move || c1.set(c1.get() + 1));
    let c2 = counter.clone();
    once.call(move || c2.set(c2.get() + 1));
    assert_eq!(counter.get(), 1);
}

#[test]
fn sync_wrapper_round_trips() {
    let w = SyncWrapper::new(41);
    assert_eq!(w.into_inner(), 41);
}

#[test]
fn pool_runs_queued_tasks_until_the_stop_token() {
    let counter = Rc::new(Cell::new(0));
    let mk = |add: i32, fail: bool| {
        let c = counter.clone();
        move || {
            c.set(c.get() + add);
            if fail {
                Err(mco::new("task failed".to_string()))
            } else {
                Ok(())
            }
        }
    };
    let mut p = Pool::new(4);
    assert!(!p.is_close());
    p.put(Task::new(mk(1, false)));
    p.put(Task::new(mk(10, true)));
    p.close_finish();
    p.run();
    assert!(p.is_close());
    assert_eq!(counter.get(), 11);
}

#[test]
fn pool_close_discards_pending_work() {
    let counter = Rc::new(Cell::new(0));
    let c1 = counter.clone();
    let mut p = Pool::new_bounded(2, 8);
    p.put(Task::new(move || {
        c1.set(c1.get() + 1);
        Ok(())
    }));
    p.close();
    p.run();
    assert!(p.is_close());
    assert_eq!(counter.get(), 0);
}

#[test]
fn io_wait_decisions() {
    assert_eq!(io_wait_step(true, true, false), IoWaitStep::Fail);
    assert_eq!(io_wait_step(true, false, true), IoWaitStep::Retry);
    assert_eq!(io_wait_step(false, false, true), IoWaitStep::Park);
    assert_eq!(io_wait_step(false, false, false), IoWaitStep::Complete);
}

#[test]
fn shell_cache_reuses_and_caps() {
    let mut p = CoroutinePool::new(1, 4096);
    assert_eq!(p.len(), 0);
    let fresh = p.get();
    assert_eq!(fresh.stack_usage(), (4096, 0));
    let mut used = mco::Stack::new(4096);
    used.record_use(100);
    p.put(used);
    assert_eq!(p.len(), 1);
    // The cache is full: a second returned shell is discarded.
    p.put(mco::Stack::new(4096));
    assert_eq!(p.len(), 1);
    // The cached shell comes back, high-water mark and all.
    let back = p.get();
    assert_eq!(back.stack_usage(), (4096, 100));
    assert_eq!(p.len(), 0);
}

#[test]
fn bounded_channel_backpressure() {
    let (s, r) = bounded::<i32>(1);
    assert!(s.try_send(1).is_ok());
    match s.try_send(2) {
        Err(TrySendError::Full(v)) => assert_eq!(v, 2),
        _ => panic!("full buffer accepted a value"),
    }
    assert_eq!(r.recv(), Some(1));
    assert!(s.send(2).is_ok());
    assert_eq!(r.recv(), Some(2));
    drop(r);
    match s.try_send(3) {
        Err(TrySendError::Disconnected(v)) => assert_eq!(v, 3),
        _ => panic!("missing receiver went unnoticed"),
    }
}

#[test]
fn try_recv_tells_empty_from_disconnected() {
    let (s, r) = channel::<i32>();
    assert_eq!(r.try_recv(), Err(TryRecvError::Empty));
    let _ = s.send(9);
    assert_eq!(r.try_recv(), Ok(9));
    drop(s);
    assert_eq!(r.try_recv(), Err(TryRecvError::Disconnected));
}

#[test]
fn next_deadline_saturates_at_the_clock_ceiling() {
    let t = Ticker::new(Span { secs: u64::MAX, nanos: 0 });
    assert_eq!(t.next_deadline(0), Some(u64::MAX));
    assert_eq!(t.next_deadline(u64::MAX - 1), Some(u64::MAX));
}
