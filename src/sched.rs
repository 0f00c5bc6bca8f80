//! The run queues of the work-stealing scheduler: one FIFO deque per worker,
//! stealable by its peers, and one shared injector, all from crossbeam.
//! Each worker looks for work in its own deque first, then in its peers'
//! deques in rotated order (skipping peers marked parked), then in the
//! injector.
use crate::park::{is_parked, ParkStatus, MAX_WORKERS};
use crossbeam::deque::{Injector, Steal, Stealer, Worker};
use std::sync::atomic::{AtomicUsize, Ordering};
use vstd::prelude::*;

verus! {

#[verifier::external_type_specification]
#[verifier::external_body]
#[verifier::reject_recursive_types(T)]
pub struct ExWorker<T>(Worker<T>);

#[verifier::external_type_specification]
#[verifier::external_body]
#[verifier::reject_recursive_types(T)]
pub struct ExStealer<T>(Stealer<T>);

#[verifier::external_type_specification]
#[verifier::external_body]
#[verifier::reject_recursive_types(T)]
pub struct ExInjector<T>(Injector<T>);

/// Relies on crossbeam's `Worker::new_fifo`: an empty FIFO deque.
pub assume_specification<T>[ Worker::<T>::new_fifo ]() -> Worker<T>;

/// Relies on crossbeam's `Worker::push`: the owner enqueues a task.
pub assume_specification<T>[ Worker::<T>::push ](w: &Worker<T>, task: T);

/// Relies on crossbeam's `Worker::pop`: the owner dequeues a task, if any.
pub assume_specification<T>[ Worker::<T>::pop ](w: &Worker<T>) -> Option<T>;

/// Relies on crossbeam's `Worker::stealer`: a handle that peers steal through.
pub assume_specification<T>[ Worker::<T>::stealer ](w: &Worker<T>) -> Stealer<T>;

/// Relies on crossbeam's `Injector::new`: an empty shared queue.
pub assume_specification<T>[ Injector::<T>::new ]() -> Injector<T>;

/// Relies on crossbeam's `Injector::push`: any thread enqueues a task.
pub assume_specification<T>[ Injector::<T>::push ](q: &Injector<T>, task: T);

/// Relies on crossbeam's `Injector::is_empty`: an advisory snapshot.
pub assume_specification<T>[ Injector::<T>::is_empty ](q: &Injector<T>) -> bool;

/// The outcome of one attempt to steal work.
pub enum StealOutcome<T> {
    /// The queue was empty when looked at.
    Empty,
    /// A task was taken.
    Success(T),
    /// Another thread interfered; the attempt may be repeated.
    Retry,
}

/// Relies on crossbeam's `Stealer::steal_batch_and_pop`: moves a batch of a
/// peer's tasks into `local` and pops one of them.
#[verifier::external_body]
fn steal_batch_from_peer<T>(s: &Stealer<T>, local: &Worker<T>) -> StealOutcome<T> {
    match s.steal_batch_and_pop(local) {
        Steal::Empty => StealOutcome::Empty,
        Steal::Success(t) => StealOutcome::Success(t),
        Steal::Retry => StealOutcome::Retry,
    }
}

/// Relies on crossbeam's `Injector::steal_batch_and_pop`: moves a batch of
/// the shared queue's tasks into `local` and pops one of them.
#[verifier::external_body]
fn steal_batch_from_injector<T>(q: &Injector<T>, local: &Worker<T>) -> StealOutcome<T> {
    match q.steal_batch_and_pop(local) {
        Steal::Empty => StealOutcome::Empty,
        Steal::Success(t) => StealOutcome::Success(t),
        Steal::Retry => StealOutcome::Retry,
    }
}

/// Where a worker found the coroutine it runs next.
#[derive(Clone, Copy, Debug, PartialEq, Eq, Structural)]
pub enum TaskSource {
    /// Its own deque.
    Local,
    /// Its inbox.
    Inbox,
    /// The deque of this peer.
    Peer(usize),
    /// The shared injector.
    Global,
}

/// What a steal does after one attempt: stop with this result, or snooze and
/// try again.
pub enum StealStep<T> {
    Done(Option<T>),
    Again,
}

/// The decision after a steal attempt came out as `o`: a task ends the steal
/// with it, an empty queue ends it with nothing, and contention means that
/// the attempt is repeated after a backoff.
pub open spec fn steal_step_spec<T>(o: StealOutcome<T>) -> StealStep<T> {
    match o {
        StealOutcome::Success(t) => StealStep::Done(Some(t)),
        StealOutcome::Empty => StealStep::Done(None),
        StealOutcome::Retry => StealStep::Again,
    }
}

/// Decides what follows a steal attempt.
pub fn steal_step<T>(o: StealOutcome<T>) -> (r: StealStep<T>)
    ensures
        r == steal_step_spec(o),
{
    match o {
        StealOutcome::Success(t) => StealStep::Done(Some(t)),
        StealOutcome::Empty => StealStep::Done(None),
        StealOutcome::Retry => StealStep::Again,
    }
}

/// Where a worker's search for work stands: the place it looks next. The
/// search goes from its own deque to its inbox, then to its peers in its
/// visiting order (`Peer(k)` is the `k`-th of them), then to the injector.
#[derive(Clone, Copy, Debug, PartialEq, Eq, Structural)]
pub enum SearchAt {
    Local,
    Inbox,
    Peer(usize),
    Global,
}

/// What one step of the search saw where it looked.
pub enum Seen<T> {
    /// The worker popped its own deque.
    Popped(Option<T>),
    /// One attempt to steal (from the inbox, a peer or the injector).
    Stole(StealOutcome<T>),
    /// The peer is marked parked and was passed over.
    Parked,
    /// No peers are left to look at.
    NoPeer,
    /// The injector looked empty.
    GlobalEmpty,
    /// Another worker was stealing from the injector.
    GlobalBusy,
}

/// What the search does after one step: run the task it found, look next
/// at the given place (the same place again after contention), or stop
/// with nothing.
pub enum SearchStep<T> {
    Found(T, TaskSource),
    Next(SearchAt),
    Exhausted,
}

/// The step after a steal attempt `o` at a place labelled `src`: the task it
/// brought, `again` after contention, or `empty` when the queue was empty.
pub open spec fn after_steal<T>(
    o: StealOutcome<T>,
    src: TaskSource,
    again: SearchAt,
    empty: SearchStep<T>,
) -> SearchStep<T> {
    match steal_step_spec(o) {
        StealStep::Done(Some(t)) => SearchStep::Found(t, src),
        StealStep::Done(None) => empty,
        StealStep::Again => SearchStep::Next(again),
    }
}

/// A search step at `at` for a worker with the visiting order `peers` and
/// the bitmap snapshot `parked` saw `seen` and decided `r`:
/// - its own deque: a task is run, else the inbox is next;
/// - its inbox: a task is run, contention retries, empty goes to the first
///   peer;
/// - peer `k`: past the last peer the injector is next; a parked peer is
///   passed over; else a task is run, contention retries the same peer, and
///   empty goes to the next peer;
/// - the injector: a task is run, contention retries; the search stops with
///   nothing only when the injector looked empty or another worker was
///   stealing from it.
pub open spec fn step_follows<T>(
    peers: Seq<int>,
    parked: u64,
    at: SearchAt,
    seen: Seen<T>,
    r: SearchStep<T>,
) -> bool {
    match at {
        SearchAt::Local => match seen {
            Seen::Popped(Some(t)) => r == SearchStep::Found(t, TaskSource::Local),
            Seen::Popped(None) => r == SearchStep::<T>::Next(SearchAt::Inbox),
            _ => false,
        },
        SearchAt::Inbox => match seen {
            Seen::Stole(o) => r == after_steal(
                o,
                TaskSource::Inbox,
                SearchAt::Inbox,
                SearchStep::Next(SearchAt::Peer(0)),
            ),
            _ => false,
        },
        SearchAt::Peer(k) => if k >= peers.len() {
            seen is NoPeer && r == SearchStep::<T>::Next(SearchAt::Global)
        } else if is_parked(parked, peers[k as int] as u64) {
            seen is Parked && r == SearchStep::<T>::Next(SearchAt::Peer((k + 1) as usize))
        } else {
            match seen {
                Seen::Stole(o) => r == after_steal(
                    o,
                    TaskSource::Peer(peers[k as int] as usize),
                    SearchAt::Peer(k),
                    SearchStep::Next(SearchAt::Peer((k + 1) as usize)),
                ),
                _ => false,
            }
        },
        SearchAt::Global => match seen {
            Seen::GlobalEmpty => r is Exhausted,
            Seen::GlobalBusy => r is Exhausted,
            Seen::Stole(o) => r == after_steal(
                o,
                TaskSource::Global,
                SearchAt::Global,
                SearchStep::Exhausted,
            ),
            _ => false,
        },
    }
}

/// Turns a steal attempt at a place labelled `src` into the search's next
/// step.
fn decide_steal<T>(o: StealOutcome<T>, src: TaskSource, again: SearchAt, empty: SearchStep<T>) -> (r:
    SearchStep<T>)
    ensures
        r == after_steal(o, src, again, empty),
{
    match steal_step(o) {
        StealStep::Done(Some(t)) => SearchStep::Found(t, src),
        StealStep::Done(None) => empty,
        StealStep::Again => SearchStep::Next(again),
    }
}

/// The order in which worker `id` visits its `workers - 1` peers: starting
/// right after itself and wrapping around.
pub open spec fn peer_order(workers: int, id: int) -> Seq<int> {
    Seq::new((workers - 1) as nat, |k: int| (id + 1 + k) % workers)
}

/// Builds worker `id`'s visiting order over `workers` workers.
pub fn peer_order_of(workers: usize, id: usize) -> (r: Vec<usize>)
    requires
        id < workers,
    ensures
        r@.map_values(|p: usize| p as int) == peer_order(workers as int, id as int),
{
    let mut r: Vec<usize> = Vec::new();
    let mut k: usize = 0;
    while k + 1 < workers
        invariant
            id < workers,
            k <= workers - 1,
            r@.len() == k,
            forall|j: int| 0 <= j < k ==> r@[j] as int == (id + 1 + j) % (workers as int),
        decreases workers - k,
    {
        let rest: usize = workers - 1 - id;
        let p: usize = if k >= rest { k - rest } else { id + 1 + k };
        proof {
            assert(id + 1 + k < 2 * workers);
            if id + 1 + k >= workers {
                vstd::arithmetic::div_mod::lemma_mod_add_multiples_vanish(
                    (id + 1 + k - workers) as int, workers as int);
                vstd::arithmetic::div_mod::lemma_small_mod((id + 1 + k - workers) as nat, workers as nat);
            } else {
                vstd::arithmetic::div_mod::lemma_small_mod((id + 1 + k) as nat, workers as nat);
            }
        }
        r.push(p);
        k = k + 1;
    }
    assert(r@.map_values(|p: usize| p as int) =~= peer_order(workers as int, id as int));
    r
}

/// `p` is marked parked in the bitmap snapshot `bits`.
fn peer_is_parked(bits: u64, p: usize) -> (r: bool)
    requires
        p < MAX_WORKERS,
    ensures
        r == is_parked(bits, p as u64),
{
    (bits >> (p as u64)) & 1 == 1
}

/// Where a timed-out coroutine goes: to the local queue of the worker that
/// last ran it, when that worker is known and exists, else (`None`) to the
/// injector.
pub fn timeout_target(owner: Option<usize>, workers: usize) -> (r: Option<usize>)
    ensures
        r == (match owner {
            Some(w) => if w < workers { Some(w) } else { None },
            None => None,
        }),
{
    match owner {
        Some(w) => if w < workers { Some(w) } else { None },
        None => None,
    }
}

/// The run queues of one scheduler: a deque per worker, an inbox per worker
/// that other threads hand it coroutines through, the stealer table, the
/// shared injector, and the parked-worker bitmap.
#[verifier::reject_recursive_types(T)]
pub struct Scheduler<T> {
    global_queue: Injector<T>,
    local_queues: Vec<Worker<T>>,
    inboxes: Vec<Injector<T>>,
    workers: ParkStatus,
    stealers: Vec<Vec<(usize, Stealer<T>)>>,
    workers_len: usize,
    global_lock: AtomicUsize,
}

impl<T> Scheduler<T> {
    /// The number of workers.
    pub closed spec fn workers_count(&self) -> nat {
        self.workers_len as nat
    }

    /// The peers that worker `id` steals from, in the order it visits them.
    pub closed spec fn peers_of(&self, id: int) -> Seq<int> {
        self.stealers@[id]@.map_values(|e: (usize, Stealer<T>)| e.0 as int)
    }

    /// The parts agree on the number of workers, and every worker's stealer
    /// list visits its peers in rotated order.
    pub closed spec fn wf(&self) -> bool {
        &&& self.workers_len <= MAX_WORKERS
        &&& self.local_queues@.len() == self.workers_len
        &&& self.inboxes@.len() == self.workers_len
        &&& self.stealers@.len() == self.workers_len
        &&& self.workers.workers() == self.workers_len
        &&& forall|id: int|
            0 <= id < self.workers_len ==> #[trigger] self.peers_of(id) == peer_order(
                self.workers_len as int,
                id,
            )
    }

    /// A scheduler for `workers` workers: an empty deque for each, an empty
    /// injector, no worker parked, and for each worker a stealer for every
    /// peer, starting with the one after it.
    pub fn new(workers: usize) -> (r: Box<Self>)
        requires
            workers <= MAX_WORKERS,
        ensures
            r.wf(),
            r.workers_count() == workers,
            forall|id: int| 0 <= id < workers ==> #[trigger] r.peers_of(id) == peer_order(workers as int, id),
    {
        let mut local_queues: Vec<Worker<T>> = Vec::with_capacity(workers);
        let mut inboxes: Vec<Injector<T>> = Vec::with_capacity(workers);
        let mut i: usize = 0;
        while i < workers
            invariant
                i <= workers,
                local_queues@.len() == i,
                inboxes@.len() == i,
            decreases workers - i,
        {
            local_queues.push(Worker::new_fifo());
            inboxes.push(Injector::new());
            i = i + 1;
        }
        let mut stealers: Vec<Vec<(usize, Stealer<T>)>> = Vec::with_capacity(workers);
        let mut id: usize = 0;
        while id < workers
            invariant
                id <= workers <= MAX_WORKERS,
                local_queues@.len() == workers,
                stealers@.len() == id,
                forall|j: int|
                    0 <= j < id ==> (#[trigger] stealers@[j])@.map_values(
                        |e: (usize, Stealer<T>)| e.0 as int,
                    ) == peer_order(workers as int, j),
            decreases workers - id,
        {
            let order = peer_order_of(workers, id);
            let ghost order_ints = order@.map_values(|p: usize| p as int);
            let mut stealers_l: Vec<(usize, Stealer<T>)> = Vec::with_capacity(workers);
            let mut k: usize = 0;
            while k < order.len()
                invariant
                    id < workers,
                    local_queues@.len() == workers,
                    order_ints == order@.map_values(|p: usize| p as int),
                    order_ints == peer_order(workers as int, id as int),
                    k <= order@.len(),
                    stealers_l@.len() == k,
                    forall|j: int| 0 <= j < k ==> (#[trigger] stealers_l@[j]).0 == order@[j],
                decreases order@.len() - k,
            {
                let p = order[k];
                assert(order_ints[k as int] == p as int);
                proof {
                    assert(order_ints.len() == order@.len());
                    assert(peer_order(workers as int, id as int).len() == workers - 1);
                    assert(peer_order(workers as int, id as int)[k as int] == (id + 1 + k) as int
                        % (workers as int));
                    vstd::arithmetic::div_mod::lemma_mod_bound((id + 1 + k) as int, workers as int);
                }
                stealers_l.push((p, local_queues[p].stealer()));
                k = k + 1;
            }
            assert(stealers_l@.map_values(|e: (usize, Stealer<T>)| e.0 as int) =~= order_ints);
            stealers.push(stealers_l);
            id = id + 1;
        }
        let r = Box::new(
            Scheduler {
                global_queue: Injector::new(),
                local_queues,
                inboxes,
                workers: ParkStatus::new(workers as u64),
                stealers,
                workers_len: workers,
                global_lock: AtomicUsize::new(0),
            },
        );
        assert forall|id: int| 0 <= id < workers implies #[trigger] r.peers_of(id) == peer_order(
            workers as int,
            id,
        ) by {
            assert(r.stealers@[id] == stealers@[id]);
        }
        r
    }

    /// The number of workers.
    pub fn workers_len(&self) -> (r: usize)
        ensures
            r == self.workers_count(),
    {
        self.workers_len
    }

    /// The parked-worker bitmap.
    pub fn park_status(&self) -> (r: &ParkStatus)
        requires
            self.wf(),
        ensures
            r.workers() == self.workers_count(),
    {
        &self.workers
    }

    /// One step of worker `id`'s search for work, at `at`, with the bitmap
    /// snapshot `parked`: one pop of its deque, one steal attempt from its
    /// inbox, a peer or the injector, or passing a parked peer over. Returns
    /// the decision with what the step saw. Only worker `id`'s own thread
    /// may call it: it pops and fills that worker's deque. Only one worker
    /// at a time steals from the injector; one that finds another at it
    /// stops its search.
    pub fn search_step(&self, id: usize, parked: u64, at: SearchAt) -> (r: (SearchStep<T>, Ghost<Seen<T>>))
        requires
            self.wf(),
            id < self.workers_count(),
        ensures
            step_follows(self.peers_of(id as int), parked, at, r.1@, r.0),
    {
        let local = &self.local_queues[id];
        match at {
            SearchAt::Local => {
                let own = local.pop();
                let ghost seen = Seen::Popped(own);
                match own {
                    Some(co) => (SearchStep::Found(co, TaskSource::Local), Ghost(seen)),
                    None => (SearchStep::Next(SearchAt::Inbox), Ghost(seen)),
                }
            },
            SearchAt::Inbox => {
                let o = steal_batch_from_injector(&self.inboxes[id], local);
                let ghost seen = Seen::Stole(o);
                let r = decide_steal(o, TaskSource::Inbox, SearchAt::Inbox, SearchStep::Next(SearchAt::Peer(0)));
                (r, Ghost(seen))
            },
            SearchAt::Peer(k) => {
                let stealers = &self.stealers[id];
                proof {
                    assert(self.peers_of(id as int) == peer_order(self.workers_len as int, id as int));
                }
                if k >= stealers.len() {
                    return (SearchStep::Next(SearchAt::Global), Ghost(Seen::NoPeer));
                }
                let peer = stealers[k].0;
                proof {
                    assert(self.peers_of(id as int)[k as int] == peer as int);
                    assert(peer_order(self.workers_len as int, id as int)[k as int] == (id + 1 + k) as int
                        % (self.workers_len as int));
                    vstd::arithmetic::div_mod::lemma_mod_bound(
                        (id + 1 + k) as int, self.workers_len as int);
                }
                if peer_is_parked(parked, peer) {
                    return (SearchStep::Next(SearchAt::Peer(k + 1)), Ghost(Seen::Parked));
                }
                let o = steal_batch_from_peer(&stealers[k].1, local);
                let ghost seen = Seen::Stole(o);
                let r = decide_steal(o, TaskSource::Peer(peer), SearchAt::Peer(k), SearchStep::Next(SearchAt::Peer(k + 1)));
                (r, Ghost(seen))
            },
            SearchAt::Global => {
                if self.global_queue.is_empty() {
                    return (SearchStep::Exhausted, Ghost(Seen::GlobalEmpty));
                }
                if self.global_lock.compare_exchange(0, 1, Ordering::Relaxed, Ordering::Relaxed).is_err() {
                    return (SearchStep::Exhausted, Ghost(Seen::GlobalBusy));
                }
                let o = steal_batch_from_injector(&self.global_queue, local);
                self.global_lock.store(0, Ordering::Relaxed);
                let ghost seen = Seen::Stole(o);
                let r = decide_steal(o, TaskSource::Global, SearchAt::Global, SearchStep::Exhausted);
                (r, Ghost(seen))
            },
        }
    }

    /// The injector may hold work: the re-check a worker makes before it
    /// parks.
    pub fn has_global_work(&self) -> bool {
        !self.global_queue.is_empty()
    }

    /// Puts a coroutine on the queue it belongs to: the calling worker's
    /// own deque when called on worker `id` (and only from that worker's
    /// thread), else the injector. Returns the
    /// worker to signal, if one was woken.
    pub fn schedule(&self, co: T, current: Option<usize>) -> (r: Option<u64>)
        requires
            self.wf(),
            current matches Some(id) ==> id < self.workers_count(),
        ensures
            current is Some ==> r is None,
            r matches Some(w) ==> w < self.workers_count(),
    {
        match current {
            Some(id) => {
                self.local_queues[id].push(co);
                None
            },
            None => self.schedule_global(co),
        }
    }

    /// Puts a coroutine on the injector and wakes one parked worker, if
    /// any; returns that worker for the caller to signal.
    pub fn schedule_global(&self, co: T) -> (r: Option<u64>)
        requires
            self.wf(),
        ensures
            r matches Some(w) ==> w < self.workers_count(),
    {
        self.global_queue.push(co);
        self.workers.wake_one()
    }

    /// Delivers a coroutine whose deadline passed, from any thread: to the
    /// inbox of the worker that last ran it, which is then the worker to
    /// signal, or, with no such worker known, through the injector as
    /// `schedule_global` does.
    pub fn schedule_timed_out(&self, co: T, owner: Option<usize>) -> (r: Option<u64>)
        requires
            self.wf(),
        ensures
            owner matches Some(w) ==> (w < self.workers_count() ==> r == Some(w as u64)),
            r matches Some(w) ==> w < self.workers_count(),
    {
        match timeout_target(owner, self.workers_len) {
            Some(w) => {
                self.inboxes[w].push(co);
                Some(w as u64)
            },
            None => self.schedule_global(co),
        }
    }
}

} // verus!
