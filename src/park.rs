//! The parked-worker bitmap: one `u64` in which bit `i` of the low half says
//! that worker `i` is parked, and bit `i` of the high half says that a
//! wakeup is pending for worker `i`.
use std::sync::atomic::{AtomicU64, Ordering};
use vstd::prelude::*;

verus! {

/// How many workers one bitmap can describe: one bit of each half per worker.
pub const MAX_WORKERS: u64 = 32;

/// Bit `i` of `bits` is set.
pub open spec fn bit_set(bits: u64, i: u64) -> bool {
    (bits >> i) & 1u64 == 1u64
}

/// Worker `i` is marked parked in `bits`.
pub open spec fn is_parked(bits: u64, i: u64) -> bool {
    i < MAX_WORKERS && bit_set(bits, i)
}

/// A wakeup is pending for worker `i` in `bits`.
pub open spec fn is_pending(bits: u64, i: u64) -> bool {
    i < MAX_WORKERS && bit_set(bits, (i + MAX_WORKERS) as u64)
}

/// The lowest-numbered worker in `from .. workers` that `bits` marks parked.
pub open spec fn lowest_parked_from(bits: u64, workers: u64, from: u64) -> Option<u64>
    decreases workers - from,
{
    if from >= workers {
        None
    } else if is_parked(bits, from) {
        Some(from)
    } else {
        lowest_parked_from(bits, workers, (from + 1) as u64)
    }
}

/// The worker that a wakeup goes to: the lowest-numbered parked one, if any.
pub open spec fn wake_target_spec(bits: u64, workers: u64) -> Option<u64> {
    lowest_parked_from(bits, workers, 0)
}

/// The bitmap after worker `i` has been woken: its parked bit cleared and its
/// pending bit set, every other bit kept.
pub open spec fn after_wake(bits: u64, i: u64) -> u64 {
    (bits & !(1u64 << i)) | (1u64 << ((i + MAX_WORKERS) as u64))
}

proof fn lemma_lowest_parked_found(bits: u64, workers: u64, from: u64, k: u64)
    requires
        from <= k < workers,
        is_parked(bits, k),
        forall|j: u64| from <= j < k ==> !is_parked(bits, j),
    ensures
        lowest_parked_from(bits, workers, from) == Some(k),
    decreases k - from,
{
    if from < k {
        lemma_lowest_parked_found(bits, workers, (from + 1) as u64, k);
    }
}

proof fn lemma_lowest_parked_none(bits: u64, workers: u64, from: u64)
    requires
        forall|j: u64| from <= j < workers ==> !is_parked(bits, j),
    ensures
        lowest_parked_from(bits, workers, from) is None,
    decreases workers - from,
{
    if from < workers {
        lemma_lowest_parked_none(bits, workers, (from + 1) as u64);
    }
}

proof fn lemma_lowest_parked_is_parked(bits: u64, workers: u64, from: u64)
    ensures
        lowest_parked_from(bits, workers, from) matches Some(k) ==> {
            &&& from <= k < workers
            &&& is_parked(bits, k)
            &&& forall|j: u64| from <= j < k ==> !is_parked(bits, j)
        },
    decreases workers - from,
{
    if from < workers && !is_parked(bits, from) {
        lemma_lowest_parked_is_parked(bits, workers, (from + 1) as u64);
    }
}

/// The worker to wake, computed from a snapshot of the bitmap: the
/// lowest-numbered parked worker below `workers`, or `None` when every
/// worker is busy.
pub fn wake_target(bits: u64, workers: u64) -> (r: Option<u64>)
    requires
        workers <= MAX_WORKERS,
    ensures
        r == wake_target_spec(bits, workers),
{
    let mut i: u64 = 0;
    while i < workers
        invariant
            i <= workers <= MAX_WORKERS,
            forall|j: u64| j < i ==> !is_parked(bits, j),
        decreases workers - i,
    {
        if (bits >> i) & 1 == 1 {
            proof {
                lemma_lowest_parked_found(bits, workers, 0, i);
            }
            return Some(i);
        }
        i = i + 1;
    }
    proof {
        lemma_lowest_parked_none(bits, workers, 0);
    }
    None
}

/// The two masks that wake worker `i`: the bits to keep, then the bit to
/// set; applied in turn to a bitmap they give `after_wake` of it.
pub fn wake_masks(i: u64) -> (r: (u64, u64))
    requires
        i < MAX_WORKERS,
    ensures
        forall|bits: u64| #[trigger] after_wake(bits, i) == ((bits & r.0) | r.1),
{
    (!(1u64 << i), 1u64 << (i + MAX_WORKERS))
}

proof fn lemma_after_wake_bits(bits: u64, j: u64, k: u64)
    by (bit_vector)
    requires
        j < 32,
        k < 32,
    ensures
        !bit_set(after_wake(bits, j), j),
        bit_set(after_wake(bits, j), (j + 32) as u64),
        k != j ==> bit_set(after_wake(bits, j), k) == bit_set(bits, k),
        k != j ==> bit_set(after_wake(bits, j), (k + 32) as u64) == bit_set(bits, (k + 32) as u64),
{
}

/// While any worker below `workers` is parked, a wakeup is never lost: it
/// goes to a parked worker (the lowest-numbered one, so at most `i`), clears
/// that worker's parked bit and marks a wakeup pending for it, and leaves the
/// bits of every other worker as they were.
pub proof fn lemma_wake_reaches_parked(bits: u64, workers: u64, i: u64)
    requires
        workers <= MAX_WORKERS,
        i < workers,
        is_parked(bits, i),
    ensures
        wake_target_spec(bits, workers) matches Some(j) && {
            &&& j <= i
            &&& is_parked(bits, j)
            &&& !is_parked(after_wake(bits, j), j)
            &&& is_pending(after_wake(bits, j), j)
            &&& forall|k: u64|
                k < MAX_WORKERS && k != j ==> {
                    &&& #[trigger] is_parked(after_wake(bits, j), k) == is_parked(bits, k)
                    &&& is_pending(after_wake(bits, j), k) == is_pending(bits, k)
                }
        },
{
    lemma_lowest_parked_is_parked(bits, workers, 0);
    if wake_target_spec(bits, workers) is None {
        lemma_lowest_parked_none_means_idle(bits, workers, 0, i);
    }
    let j = wake_target_spec(bits, workers)->0;
    assert forall|k: u64| k < MAX_WORKERS && k != j implies {
        &&& #[trigger] is_parked(after_wake(bits, j), k) == is_parked(bits, k)
        &&& is_pending(after_wake(bits, j), k) == is_pending(bits, k)
    } by {
        lemma_after_wake_bits(bits, j, k);
    }
    lemma_after_wake_bits(bits, j, j);
}

/// With no worker below `workers` parked, no wakeup is sent.
pub proof fn lemma_wake_none_when_all_busy(bits: u64, workers: u64)
    requires
        forall|k: u64| k < workers ==> !is_parked(bits, k),
    ensures
        wake_target_spec(bits, workers) is None,
{
    lemma_lowest_parked_none(bits, workers, 0);
}

proof fn lemma_lowest_parked_none_means_idle(bits: u64, workers: u64, from: u64, i: u64)
    requires
        from <= i < workers,
        is_parked(bits, i),
    ensures
        lowest_parked_from(bits, workers, from) is Some,
    decreases workers - from,
{
    if from < i && !is_parked(bits, from) {
        lemma_lowest_parked_none_means_idle(bits, workers, (from + 1) as u64, i);
    }
}

/// The shared bitmap of one scheduler, and how many workers it describes.
pub struct ParkStatus {
    pub parked: AtomicU64,
    workers: u64,
}

impl ParkStatus {
    /// The number of workers that the bitmap describes.
    pub closed spec fn workers(&self) -> u64 {
        self.workers
    }

    /// A bitmap for `workers` workers, none of them parked.
    pub fn new(workers: u64) -> (r: Self)
        requires
            workers <= MAX_WORKERS,
        ensures
            r.workers() == workers,
    {
        let parked = AtomicU64::new(0);
        ParkStatus { parked, workers }
    }

    /// The number of workers that the bitmap describes.
    pub fn workers_len(&self) -> (r: u64)
        ensures
            r == self.workers(),
    {
        self.workers
    }

    /// A snapshot of the bitmap; other workers may change it at any time.
    pub fn snapshot(&self) -> u64 {
        self.parked.load(Ordering::Relaxed)
    }

    /// Worker `id`, out of work, marks itself parked before it blocks.
    pub fn park(&self, id: u64)
        requires
            id < self.workers(),
            self.workers() <= MAX_WORKERS,
    {
        self.parked.fetch_or(1u64 << id, Ordering::Relaxed);
    }

    /// Worker `id`, woken, clears its parked and pending bits.
    pub fn resume(&self, id: u64)
        requires
            id < self.workers(),
            self.workers() <= MAX_WORKERS,
    {
        let mask: u64 = (1u64 << id) | (1u64 << (id + MAX_WORKERS));
        self.parked.fetch_and(!mask, Ordering::Relaxed);
    }

    /// Picks the lowest-numbered parked worker, clears its parked bit, marks
    /// a wakeup pending for it, and returns it for the caller to signal.
    /// With every worker busy nothing is changed and `None` comes back;
    /// parked workers also wake by themselves after `SELF_WAKE_MS`.
    pub fn wake_one(&self) -> (r: Option<u64>)
        requires
            self.workers() <= MAX_WORKERS,
        ensures
            r matches Some(i) ==> i < self.workers(),
    {
        let bits = self.parked.load(Ordering::Relaxed);
        let target = wake_target(bits, self.workers);
        if let Some(i) = target {
            proof {
                lemma_lowest_parked_is_parked(bits, self.workers, 0);
            }
            let (keep, set) = wake_masks(i);
            self.parked.fetch_and(keep, Ordering::Relaxed);
            self.parked.fetch_or(set, Ordering::Relaxed);
        }
        target
    }
}

/// How long a parked worker blocks at most before it wakes by itself, in
/// milliseconds: the bound on a lost wakeup signal.
pub const SELF_WAKE_MS: u64 = 1000;

} // verus!
