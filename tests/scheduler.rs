use mco::likely;
use mco::park::{wake_masks, wake_target, ParkStatus, MAX_WORKERS, SELF_WAKE_MS};
use mco::sched::{
    peer_order_of, steal_step, timeout_target, Scheduler, SearchAt, SearchStep, StealOutcome,
    StealStep, TaskSource,
};

// Drives the library's search step by step, as a worker does.
fn find_task(s: &Scheduler<u64>, id: usize, parked: u64) -> Option<(u64, TaskSource)> {
    let mut at = SearchAt::Local;
    loop {
        match s.search_step(id, parked, at).0 {
            SearchStep::Found(co, src) => return Some((co, src)),
            SearchStep::Exhausted => return None,
            SearchStep::Next(next) => at = next,
        }
    }
}

fn next_task(s: &Scheduler<u64>, id: usize) -> Option<u64> {
    find_task(s, id, s.park_status().snapshot()).map(|(co, _)| co)
}

#[test]
fn likely_is_identity() {
    assert!(likely(true));
    assert!(!likely(false));
}

#[test]
fn wake_target_picks_lowest_parked_worker() {
    assert_eq!(wake_target(0b1010, 4), Some(1));
    assert_eq!(wake_target(0b1000, 4), Some(3));
    assert_eq!(wake_target(0b1000, 3), None);
    assert_eq!(wake_target(0, 4), None);
    // pending bits in the high half never count as parked
    assert_eq!(wake_target(1u64 << 32, 4), None);
    assert_eq!(wake_target(u64::MAX, MAX_WORKERS), Some(0));
}

#[test]
fn park_status_wake_one_clears_parked_and_marks_pending() {
    let p = ParkStatus::new(4);
    assert_eq!(p.workers_len(), 4);
    assert_eq!(p.wake_one(), None);
    p.park(2);
    p.park(3);
    assert_eq!(p.snapshot(), 0b1100);
    assert_eq!(p.wake_one(), Some(2));
    assert_eq!(p.snapshot(), 0b1000 | (1u64 << 34));
    assert_eq!(p.wake_one(), Some(3));
    assert_eq!(p.wake_one(), None);
    p.resume(2);
    assert_eq!(p.snapshot(), 1u64 << 35);
    p.resume(3);
    assert_eq!(p.snapshot(), 0);
    assert_eq!(SELF_WAKE_MS, 1000);
}

#[test]
fn peer_order_rotates_after_self() {
    assert_eq!(peer_order_of(4, 0), vec![1, 2, 3]);
    assert_eq!(peer_order_of(4, 1), vec![2, 3, 0]);
    assert_eq!(peer_order_of(4, 2), vec![3, 0, 1]);
    assert_eq!(peer_order_of(4, 3), vec![0, 1, 2]);
    assert_eq!(peer_order_of(1, 0), Vec::<usize>::new());
}

#[test]
fn timeout_goes_to_owner_or_injector() {
    assert_eq!(timeout_target(Some(1), 2), Some(1));
    assert_eq!(timeout_target(Some(2), 2), None);
    assert_eq!(timeout_target(None, 2), None);
}

#[test]
fn local_work_runs_before_global() {
    let s: Box<Scheduler<u64>> = Scheduler::new(2);
    assert_eq!(s.workers_len(), 2);
    assert_eq!(s.schedule(7, None), None);
    assert!(s.has_global_work());
    assert_eq!(s.schedule(8, Some(0)), None);
    assert_eq!(next_task(&s, 0), Some(8));
    assert_eq!(next_task(&s, 0), Some(7));
    assert_eq!(next_task(&s, 0), None);
    assert!(!s.has_global_work());
}

#[test]
fn global_schedule_wakes_a_parked_worker() {
    let s: Box<Scheduler<u64>> = Scheduler::new(2);
    s.park_status().park(1);
    assert_eq!(s.schedule_global(5), Some(1));
    assert_eq!(s.schedule_global(6), None);
    assert_eq!(next_task(&s, 1), Some(5));
    assert_eq!(next_task(&s, 1), Some(6));
}

#[test]
fn timed_out_coroutine_goes_to_its_worker() {
    let s: Box<Scheduler<u64>> = Scheduler::new(2);
    assert_eq!(s.schedule_timed_out(9, Some(1)), Some(1));
    assert_eq!(next_task(&s, 1), Some(9));
    s.park_status().park(0);
    assert_eq!(s.schedule_timed_out(10, None), Some(0));
    assert_eq!(next_task(&s, 0), Some(10));
}

#[test]
fn work_stealing_spreads_one_workers_load() {
    let s: Box<Scheduler<u64>> = Scheduler::new(2);
    for i in 0..10_000u64 {
        s.schedule(i, Some(0));
    }
    let mut stolen = 0u64;
    while let Some(_) = next_task(&s, 1) {
        stolen += 1;
    }
    let mut own = 0u64;
    while let Some(_) = next_task(&s, 0) {
        own += 1;
    }
    assert!(stolen > 0);
    assert_eq!(stolen + own, 10_000);
}

#[test]
fn parked_peers_are_not_stolen_from() {
    let s: Box<Scheduler<u64>> = Scheduler::new(2);
    s.schedule(1, Some(0));
    s.park_status().park(0);
    assert_eq!(next_task(&s, 1), None);
    s.park_status().resume(0);
    assert_eq!(next_task(&s, 1), Some(1));
}

#[test]
fn wake_masks_clear_parked_and_set_pending() {
    let (keep, set) = wake_masks(2);
    assert_eq!((0b1100u64 & keep) | set, 0b1000 | (1u64 << 34));
    let (keep0, set0) = wake_masks(0);
    assert_eq!((1u64 & keep0) | set0, 1u64 << 32);
}

#[test]
fn find_task_reports_its_source_and_skips_parked_peers() {
    let s: Box<Scheduler<u64>> = Scheduler::new(3);
    s.schedule(1, Some(0));
    s.schedule(2, Some(2));
    s.schedule(3, Some(1));
    s.schedule(4, None);
    assert_eq!(find_task(&s, 1, 0), Some((3, TaskSource::Local)));
    // worker 1 visits 2 then 0; with 2 marked parked it goes to 0
    assert_eq!(find_task(&s, 1, 1 << 2), Some((1, TaskSource::Peer(0))));
    assert_eq!(find_task(&s, 1, 1 << 2), Some((4, TaskSource::Global)));
    assert_eq!(find_task(&s, 1, 1 << 2), None);
    assert_eq!(find_task(&s, 1, 0), Some((2, TaskSource::Peer(2))));
}

#[test]
fn timed_out_coroutine_arrives_through_the_inbox() {
    let s: Box<Scheduler<u64>> = Scheduler::new(2);
    s.schedule(1, Some(0));
    assert_eq!(s.schedule_timed_out(2, Some(0)), Some(0));
    assert_eq!(find_task(&s, 0, 0), Some((1, TaskSource::Local)));
    assert_eq!(find_task(&s, 0, 0), Some((2, TaskSource::Inbox)));
    assert_eq!(find_task(&s, 0, 0), None);
}

#[test]
fn steal_step_decides_each_outcome() {
    assert!(matches!(steal_step(StealOutcome::Success(5u64)), StealStep::Done(Some(5))));
    assert!(matches!(steal_step(StealOutcome::<u64>::Empty), StealStep::Done(None)));
    assert!(matches!(steal_step(StealOutcome::<u64>::Retry), StealStep::Again));
}

#[test]
fn search_steps_go_local_inbox_peers_global() {
    let s: Box<Scheduler<u64>> = Scheduler::new(3);
    assert!(matches!(s.search_step(1, 0, SearchAt::Local).0, SearchStep::Next(SearchAt::Inbox)));
    assert!(matches!(s.search_step(1, 0, SearchAt::Inbox).0, SearchStep::Next(SearchAt::Peer(0))));
    assert!(matches!(s.search_step(1, 1 << 2, SearchAt::Peer(0)).0, SearchStep::Next(SearchAt::Peer(1))));
    assert!(matches!(s.search_step(1, 0, SearchAt::Peer(1)).0, SearchStep::Next(SearchAt::Peer(2))));
    assert!(matches!(s.search_step(1, 0, SearchAt::Peer(2)).0, SearchStep::Next(SearchAt::Global)));
    assert!(matches!(s.search_step(1, 0, SearchAt::Global).0, SearchStep::Exhausted));
    s.schedule(9, Some(0));
    assert!(matches!(s.search_step(1, 0, SearchAt::Peer(1)).0, SearchStep::Found(9, TaskSource::Peer(0))));
}
