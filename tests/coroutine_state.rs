use mco::cancel::{CancelStatus, Cancelled};
use mco::join::{Ending, Exit, Join, JoinError, JoinHandle};
use mco::local::{Coroutine, CoroutineLocal, IdHasher, LocalKey, LocalMap};
use mco::pool::{Stack, StackPool};
use mco::timer::{TimerEntry, TimerList};
use mco::wakeup::{deliver, WakeReason, WakeupCell};
use std::hash::{Hash, Hasher};
use std::sync::Arc;

#[test]
fn join_is_ready_once_and_keeps_first_report() {
    let mut h: JoinHandle<u32> = JoinHandle::new();
    assert!(!h.is_done());
    assert!(h.complete(Exit::Returned(42)));
    assert!(h.is_done());
    assert!(!h.complete(Exit::Cancelled));
    assert!(!h.complete(Exit::Returned(7)));
    assert!(matches!(h.join(), Ok(42)));
}

#[test]
fn join_propagates_panic_and_cancel() {
    let mut h: JoinHandle<u32> = JoinHandle::new();
    h.complete(Exit::Panicked("boom".to_string()));
    match h.join() {
        Err(JoinError::Panicked(m)) => assert_eq!(m, "boom"),
        _ => panic!("expected the panic"),
    }
    let mut c: JoinHandle<u32> = JoinHandle::new();
    c.complete(Exit::Cancelled);
    assert!(matches!(c.join(), Err(JoinError::Cancelled)));
}

#[test]
fn join_record_triggers_once() {
    let mut j = Join::new();
    assert!(!j.is_done());
    assert!(j.trigger(Ending::Returned));
    assert!(!j.trigger(Ending::Cancelled));
    assert!(j.is_done());
}

#[test]
fn wakeup_cell_take_succeeds_once() {
    let mut cell = WakeupCell::some(3u64);
    assert!(!cell.is_none());
    assert_eq!(cell.take(), Some(3));
    assert_eq!(cell.take(), None);
    assert!(cell.is_none());
    assert_eq!(cell.swap(4), None);
    assert_eq!(cell.swap(5), Some(4));
    let empty: WakeupCell<u64> = WakeupCell::new();
    assert!(empty.is_none());
}

#[test]
fn only_first_waker_resumes() {
    let mut cell = WakeupCell::some(1u64);
    let first = deliver(&mut cell, WakeReason::<usize>::TimedOut);
    assert!(matches!(first, Some((1, WakeReason::TimedOut))));
    assert!(deliver(&mut cell, WakeReason::Ready(10usize)).is_none());
    assert!(deliver(&mut cell, WakeReason::<usize>::Cancelled).is_none());
}

// A read with a 50 ms deadline on a socket whose data arrives at 100 ms
// times out, and the late data does not resume the coroutine.
#[test]
fn timeout_race_read_times_out() {
    let mut timers = TimerList::new();
    let mut cell = WakeupCell::some(77u64);
    timers.add_timer(0, 50, 1);
    assert!(timers.expire(49).is_empty());
    let fired = timers.expire(50);
    assert_eq!(fired, vec![TimerEntry { deadline: 50, id: 1 }]);
    let resumed = deliver(&mut cell, WakeReason::<usize>::TimedOut);
    assert!(matches!(resumed, Some((77, WakeReason::TimedOut))));
    // data arrives at 100 ms
    assert!(deliver(&mut cell, WakeReason::Ready(5usize)).is_none());
}

// B sleeps 10 s; A cancels it after 20 ms; joining B gives the
// cancellation marker long before the sleep would have ended.
#[test]
fn cancellation_of_a_sleeping_coroutine() {
    let mut timers = TimerList::new();
    let mut b_cell = WakeupCell::some(2u64);
    let mut b_cancel = CancelStatus::new();
    let mut b_join: JoinHandle<()> = JoinHandle::new();
    assert_eq!(timers.add_timer(0, 10_000, 2), 10_000);
    assert!(timers.expire(20).is_empty());
    // at 20 ms A cancels B
    assert_eq!(b_cancel.cancel(), None);
    assert!(timers.del_timer(2));
    let resumed = deliver(&mut b_cell, WakeReason::<usize>::Cancelled);
    assert!(resumed.is_some());
    assert!(matches!(b_cancel.check_cancel(), Err(Cancelled::Requested)));
    b_join.complete(Exit::Cancelled);
    assert!(matches!(b_join.join(), Err(JoinError::Cancelled)));
    assert_eq!(timers.len(), 0);
    assert_eq!(timers.expire(10_000), Vec::<TimerEntry>::new());
}

#[test]
fn cancel_is_idempotent_and_aborts_io_once() {
    let mut c = CancelStatus::new();
    assert!(!c.is_canceled());
    assert!(c.check_cancel().is_ok());
    assert!(!c.set_io(9));
    assert_eq!(c.cancel(), Some(9));
    assert_eq!(c.cancel(), None);
    assert!(c.is_canceled());
    // registering after a cancel tells the caller to abort the request
    assert!(c.set_io(10));
    c.clear_io();
    assert_eq!(c.cancel(), None);
}

#[test]
fn stack_pool_reuses_most_recent_fit() {
    let mut p = StackPool::new(2);
    assert_eq!(p.capacity(), 2);
    let a = p.acquire(4096);
    let b = p.acquire(8192);
    assert_eq!(a, Stack { id: 0, size: 4096 });
    assert_eq!(b, Stack { id: 1, size: 8192 });
    assert!(p.release(a));
    assert!(p.release(b));
    assert!(!p.release(Stack { id: 9, size: 4096 }));
    assert_eq!(p.free_len(), 2);
    assert_eq!(p.acquire(4096), a);
    assert_eq!(p.acquire(4096), Stack { id: 2, size: 4096 });
    assert_eq!(p.allocated(), 3);
}

#[test]
fn stack_pool_cycles_allocate_once() {
    let mut p = StackPool::new(1);
    for _ in 0..1000 {
        let s = p.acquire(16 * 1024);
        p.release(s);
    }
    assert_eq!(p.allocated(), 1);
}

#[test]
fn timer_list_fires_in_deadline_order_of_time() {
    let mut t = TimerList::new();
    assert_eq!(t.next_deadline(), None);
    assert_eq!(t.add_timer(10, 30, 1), 40);
    assert_eq!(t.add_timer(10, 5, 2), 15);
    assert_eq!(t.add_timer(20, 100, 3), 120);
    assert_eq!(t.next_deadline(), Some(15));
    assert_eq!(t.expire(40), vec![TimerEntry { deadline: 40, id: 1 }, TimerEntry { deadline: 15, id: 2 }]);
    assert_eq!(t.next_deadline(), Some(120));
    assert!(!t.del_timer(5));
    assert!(t.del_timer(3));
    assert_eq!(t.len(), 0);
}

#[test]
fn sleep_never_fires_early() {
    let mut t = TimerList::new();
    let start = 1_000u64;
    let d = 250u64;
    t.add_timer(start, d, 4);
    let mut now = start;
    loop {
        let fired = t.expire(now);
        if !fired.is_empty() {
            break;
        }
        now += 1;
    }
    assert!(now - start >= d);
    assert_eq!(now - start, d);
}

#[test]
fn coroutine_handle_fields() {
    let c = Coroutine::new(3, Some("worker".to_string()), 8192);
    assert_eq!(c.id(), 3);
    assert_eq!(c.name(), Some("worker"));
    assert_eq!(c.stack_size(), 8192);
    let anon = Coroutine::new(4, None, 4096);
    assert_eq!(anon.name(), None);
}

#[test]
fn local_key_initializes_on_first_access() {
    let key = LocalKey { key: 11, init: || 5u32 };
    let mut map: LocalMap<u32> = LocalMap::new();
    assert_eq!(map.get(11), None);
    assert_eq!(key.with(&mut map, |v| *v + 1), 6);
    assert_eq!(map.set(11, 9), Some(5));
    assert_eq!(key.with(&mut map, |v| *v), 9);
    assert_eq!(*map.get_or_init(12, &|| 1u32), 1);
}

#[test]
fn coroutine_local_keeps_handle_and_join() {
    let join = Arc::new(Join::new());
    let mut cl: Box<CoroutineLocal<u64>> = CoroutineLocal::new(Coroutine::new(1, None, 4096), join.clone());
    assert_eq!(cl.get_co().id(), 1);
    assert!(Arc::ptr_eq(&cl.get_join(), &join));
    cl.local_data().set(1, 10);
    assert_eq!(cl.local_data().get(1), Some(&10));
}

// 100 coroutines each store their own index under one key and read it back
// after the others ran: no crosstalk.
#[test]
fn coroutine_local_isolation() {
    let key = LocalKey { key: 1, init: || 0u64 };
    let mut locals: Vec<Box<CoroutineLocal<u64>>> = (0..100u64)
        .map(|i| CoroutineLocal::new(Coroutine::new(i, None, 4096), Arc::new(Join::new())))
        .collect();
    for (i, cl) in locals.iter_mut().enumerate() {
        assert_eq!(key.with(cl.local_data(), |v| *v), 0);
        cl.local_data().set(1, i as u64);
    }
    let mut thread_map: LocalMap<u64> = LocalMap::new();
    assert_eq!(key.with(&mut thread_map, |v| *v), 0);
    for (i, cl) in locals.iter_mut().enumerate() {
        assert_eq!(key.with(cl.local_data(), |v| *v), i as u64);
    }
}

#[test]
fn id_hasher_keeps_the_u64() {
    let mut h = IdHasher::default();
    h.write_u64(0xdead_beef);
    assert_eq!(h.finish(), 0xdead_beef);
    let mut h2 = IdHasher::default();
    42u64.hash(&mut h2);
    assert_eq!(h2.finish(), 42);
    let mut h3 = IdHasher::default();
    h3.write(&[1, 2]);
    assert_eq!(h3.finish(), 0x0102);
}
