//! A stackful coroutine runtime: the decision logic of its work-stealing
//! scheduler, its parked-worker bitmap, its wakeup cells, join slots,
//! cancellation status, stack pool and timer deadlines, its coroutine-local
//! storage, and the maps it ships, each with a contract.
use vstd::prelude::*;

pub mod cancel;
pub mod join;
pub mod local;
pub mod park;
pub mod pool;
pub mod sched;
pub mod sync_btree_map;
pub mod sync_map;
pub mod timer;
pub mod wakeup;

verus! {

/// Branch hint: the value itself, marking the expected outcome of a test.
#[inline]
pub fn likely(e: bool) -> (r: bool)
    ensures
        r == e,
{
    e
}

} // verus!
