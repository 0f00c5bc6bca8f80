//! The wakeup cell: a single slot holding a suspended coroutine. Every
//! waker of the coroutine (I/O completion, timer, cancellation) takes from
//! the same cell; the first to take it resumes the coroutine and the others
//! find the slot empty and drop their notification.
use vstd::prelude::*;

verus! {

/// A slot that holds at most one coroutine.
pub struct WakeupCell<T> {
    slot: Option<T>,
}

/// Why a suspended coroutine is resumed; the coroutine reads it on resume.
pub enum WakeReason<R> {
    /// The operation it waited for finished with this result.
    Ready(R),
    /// Its deadline passed first.
    TimedOut,
    /// It was cancelled first.
    Cancelled,
}

/// A take from a cell holding `slot`: what the taker gets, and what the cell
/// holds afterwards.
pub open spec fn take_spec<T>(slot: Option<T>) -> (Option<T>, Option<T>) {
    (slot, None)
}

/// A delivery of `why` to a cell holding `slot`: what the waker gets, and
/// what the cell holds afterwards.
pub open spec fn deliver_spec<T, R>(slot: Option<T>, why: WakeReason<R>) -> (
    Option<(T, WakeReason<R>)>,
    Option<T>,
) {
    match slot {
        Some(co) => (Some((co, why)), None),
        None => (None, None),
    }
}

impl<T> WakeupCell<T> {
    /// What the cell holds.
    pub closed spec fn slot_spec(&self) -> Option<T> {
        self.slot
    }

    /// An empty cell.
    pub fn new() -> (r: Self)
        ensures
            r.slot_spec() is None,
    {
        WakeupCell { slot: None }
    }

    /// A cell holding `co`.
    pub fn some(co: T) -> (r: Self)
        ensures
            r.slot_spec() == Some(co),
    {
        WakeupCell { slot: Some(co) }
    }

    /// The cell is empty.
    pub fn is_none(&self) -> (r: bool)
        ensures
            r == self.slot_spec() is None,
    {
        self.slot.is_none()
    }

    /// Puts `co` in the cell; returns what it held before.
    pub fn swap(&mut self, co: T) -> (r: Option<T>)
        ensures
            r == old(self).slot_spec(),
            final(self).slot_spec() == Some(co),
    {
        let r = self.slot.take();
        self.slot = Some(co);
        r
    }

    /// Takes what the cell holds, leaving it empty.
    pub fn take(&mut self) -> (r: Option<T>)
        ensures
            (r, final(self).slot_spec()) == take_spec(old(self).slot_spec()),
    {
        self.slot.take()
    }
}

/// Hands the wake reason `why` to the coroutine in `cell`, if it is still
/// there: the caller gets the coroutine to schedule, with the reason it is
/// to read on resume. A waker that finds the cell empty gets `None` and has
/// lost the race; it changes nothing.
pub fn deliver<T, R>(cell: &mut WakeupCell<T>, why: WakeReason<R>) -> (r: Option<(T, WakeReason<R>)>)
    ensures
        (r, final(cell).slot_spec()) == deliver_spec(old(cell).slot_spec(), why),
{
    match cell.take() {
        Some(co) => Some((co, why)),
        None => None,
    }
}

/// Which of `n` wakers that `take` from a cell holding `slot`, one after the
/// other, get the coroutine.
pub open spec fn takes_served<T>(slot: Option<T>, n: nat) -> Seq<bool>
    decreases n,
{
    if n == 0 {
        Seq::empty()
    } else {
        seq![take_spec(slot).0 is Some].add(takes_served(take_spec(slot).1, (n - 1) as nat))
    }
}

proof fn lemma_empty_serves_none<T>(n: nat)
    ensures
        takes_served(None::<T>, n).len() == n,
        forall|i: int| 0 <= i < n ==> !#[trigger] takes_served(None::<T>, n)[i],
    decreases n,
{
    if n > 0 {
        lemma_empty_serves_none::<T>((n - 1) as nat);
        assert forall|i: int| 0 <= i < n implies !#[trigger] takes_served(None::<T>, n)[i] by {
            if i > 0 {
                assert(takes_served(None::<T>, n)[i] == takes_served(None::<T>, (n - 1) as nat)[i - 1]);
            }
        }
    }
}

/// A take from a cell succeeds at most once over the cell's life: of any
/// number of `take` calls on a cell that was filled once, no two succeed.
pub proof fn lemma_take_at_most_once<T>(slot: Option<T>, n: nat)
    ensures
        takes_served(slot, n).len() == n,
        forall|i: int, j: int|
            0 <= i < j < n ==> !(#[trigger] takes_served(slot, n)[i] && #[trigger] takes_served(
                slot,
                n,
            )[j]),
{
    if n > 0 {
        lemma_empty_serves_none::<T>((n - 1) as nat);
        assert forall|i: int| 1 <= i < n implies !#[trigger] takes_served(slot, n)[i] by {
            assert(takes_served(slot, n)[i] == takes_served(None::<T>, (n - 1) as nat)[i - 1]);
        }
    }
}

/// Which of the wake reasons `whys`, delivered in order to a cell holding
/// `slot`, resumed the coroutine.
pub open spec fn deliveries<T, R>(slot: Option<T>, whys: Seq<WakeReason<R>>) -> Seq<bool>
    decreases whys.len(),
{
    if whys.len() == 0 {
        Seq::empty()
    } else {
        seq![deliver_spec(slot, whys[0]).0 is Some].add(
            deliveries(deliver_spec(slot, whys[0]).1, whys.drop_first()),
        )
    }
}

proof fn lemma_empty_delivers_none<T, R>(whys: Seq<WakeReason<R>>)
    ensures
        deliveries(None::<T>, whys).len() == whys.len(),
        forall|i: int| 0 <= i < whys.len() ==> !#[trigger] deliveries(None::<T>, whys)[i],
    decreases whys.len(),
{
    if whys.len() > 0 {
        let rest = whys.drop_first();
        lemma_empty_delivers_none::<T, R>(rest);
        assert forall|i: int| 0 <= i < whys.len() implies !#[trigger] deliveries(None::<T>, whys)[i] by {
            if i > 0 {
                assert(deliveries(None::<T>, whys)[i] == deliveries(None::<T>, rest)[i - 1]);
            }
        }
    }
}

/// Of the wakers racing for one suspended coroutine (its I/O completion, its
/// timer, its cancellation, in whatever order they arrive), exactly one
/// resumes it, the first to arrive; the others are no-ops.
pub proof fn lemma_one_waker_resumes<T, R>(co: T, whys: Seq<WakeReason<R>>)
    requires
        whys.len() > 0,
    ensures
        deliveries(Some(co), whys).len() == whys.len(),
        deliveries(Some(co), whys)[0],
        forall|i: int| 1 <= i < whys.len() ==> !#[trigger] deliveries(Some(co), whys)[i],
{
    let rest = whys.drop_first();
    lemma_empty_delivers_none::<T, R>(rest);
    assert forall|i: int| 1 <= i < whys.len() implies !#[trigger] deliveries(Some(co), whys)[i] by {
        assert(deliveries(Some(co), whys)[i] == deliveries(None::<T>, rest)[i - 1]);
    }
}

} // verus!
