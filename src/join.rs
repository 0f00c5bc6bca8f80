//! How a coroutine ended, and the records that report it to whoever joins:
//! each is set once, by the first report, and later reports are ignored.
use vstd::prelude::*;

verus! {

/// How a coroutine's entry closure ended, as its join record keeps it.
pub enum Ending {
    /// It returned; the value travels separately.
    Returned,
    /// It panicked, with this message.
    Panicked(String),
    /// It was cancelled.
    Cancelled,
}

/// How a coroutine's entry closure ended, with the value it returned.
pub enum Exit<T> {
    Returned(T),
    Panicked(String),
    Cancelled,
}

/// What `join` reports of a coroutine that returned no value.
pub enum JoinError {
    /// It panicked, with this message.
    Panicked(String),
    /// It was cancelled.
    Cancelled,
}

/// The record of whether, and how, one coroutine has ended.
pub struct Join {
    ending: Option<Ending>,
}

/// The record after a report of `e`: the first report counts, later ones
/// change nothing.
pub open spec fn after_report(rec: Option<Ending>, e: Ending) -> Option<Ending> {
    match rec {
        Some(r) => Some(r),
        None => Some(e),
    }
}

impl Join {
    /// How the coroutine ended, once it has.
    pub closed spec fn ending_spec(&self) -> Option<Ending> {
        self.ending
    }

    /// A record of a coroutine that has not ended.
    pub fn new() -> (r: Self)
        ensures
            r.ending_spec() is None,
    {
        Join { ending: None }
    }

    /// The coroutine has ended.
    pub fn is_done(&self) -> (r: bool)
        ensures
            r == self.ending_spec() is Some,
    {
        self.ending.is_some()
    }

    /// Reports that the coroutine ended as `e`; returns whether this was
    /// the first report, the one that made the record ready.
    pub fn trigger(&mut self, e: Ending) -> (r: bool)
        ensures
            r == old(self).ending_spec() is None,
            final(self).ending_spec() == after_report(old(self).ending_spec(), e),
    {
        if self.ending.is_some() {
            false
        } else {
            self.ending = Some(e);
            true
        }
    }
}

/// The slot that a coroutine's outcome is handed to its joiner through.
pub struct JoinHandle<T> {
    join: Join,
    packet: Option<T>,
}

/// The ending that the join record keeps of `x`.
pub open spec fn ending_of<T>(x: Exit<T>) -> Ending {
    match x {
        Exit::Returned(_) => Ending::Returned,
        Exit::Panicked(m) => Ending::Panicked(m),
        Exit::Cancelled => Ending::Cancelled,
    }
}

/// What `join` returns for a coroutine that ended as `x`.
pub open spec fn join_result<T>(x: Exit<T>) -> Result<T, JoinError> {
    match x {
        Exit::Returned(v) => Ok(v),
        Exit::Panicked(m) => Err(JoinError::Panicked(m)),
        Exit::Cancelled => Err(JoinError::Cancelled),
    }
}

/// The slot after the report `x`: the first report counts, later ones change
/// nothing.
pub open spec fn after_exit<T>(slot: Option<Exit<T>>, x: Exit<T>) -> Option<Exit<T>> {
    match slot {
        Some(s) => Some(s),
        None => Some(x),
    }
}

/// A report of `x` to a slot holding `slot`: what the slot holds afterwards,
/// and whether this report made it ready.
pub open spec fn complete_spec<T>(slot: Option<Exit<T>>, x: Exit<T>) -> (Option<Exit<T>>, bool) {
    (after_exit(slot, x), slot is None)
}

impl<T> JoinHandle<T> {
    /// The outcome of the coroutine, once it has ended.
    pub closed spec fn exit_spec(&self) -> Option<Exit<T>> {
        match self.join.ending {
            None => None,
            Some(Ending::Returned) => match self.packet {
                Some(v) => Some(Exit::Returned(v)),
                None => None,
            },
            Some(Ending::Panicked(m)) => Some(Exit::Panicked(m)),
            Some(Ending::Cancelled) => Some(Exit::Cancelled),
        }
    }

    /// The join record and the value agree: a value is held exactly when the
    /// coroutine returned one.
    pub closed spec fn wf(&self) -> bool {
        self.packet is Some <==> self.join.ending == Some(Ending::Returned)
    }

    /// The slot of a coroutine that has not ended.
    pub fn new() -> (r: Self)
        ensures
            r.wf(),
            r.exit_spec() is None,
    {
        JoinHandle { join: Join::new(), packet: None }
    }

    /// The coroutine has ended: `join` will not wait.
    pub fn is_done(&self) -> (r: bool)
        requires
            self.wf(),
        ensures
            r == self.exit_spec() is Some,
    {
        self.join.is_done()
    }

    /// Reports that the coroutine ended as `x`; returns whether this was the
    /// first report, the one that made the slot ready. Later reports are
    /// ignored.
    pub fn complete(&mut self, x: Exit<T>) -> (r: bool)
        requires
            old(self).wf(),
        ensures
            final(self).wf(),
            (final(self).exit_spec(), r) == complete_spec(old(self).exit_spec(), x),
    {
        if self.join.is_done() {
            return false;
        }
        match x {
            Exit::Returned(v) => {
                self.packet = Some(v);
                self.join.trigger(Ending::Returned);
            },
            Exit::Panicked(m) => {
                self.join.trigger(Ending::Panicked(m));
            },
            Exit::Cancelled => {
                self.join.trigger(Ending::Cancelled);
            },
        }
        true
    }

    /// The coroutine's value, or why there is none.
    pub fn join(self) -> (r: Result<T, JoinError>)
        requires
            self.wf(),
            self.exit_spec() is Some,
        ensures
            r == join_result(self.exit_spec()->0),
    {
        match self.join.ending {
            Some(Ending::Returned) => match self.packet {
                Some(v) => Ok(v),
                None => Err(JoinError::Cancelled),
            },
            Some(Ending::Panicked(m)) => Err(JoinError::Panicked(m)),
            _ => Err(JoinError::Cancelled),
        }
    }
}

/// The slot after `complete` reported the ends `xs` to it, in order.
pub open spec fn after_exits<T>(slot: Option<Exit<T>>, xs: Seq<Exit<T>>) -> Option<Exit<T>>
    decreases xs.len(),
{
    if xs.len() == 0 {
        slot
    } else {
        after_exits(complete_spec(slot, xs[0]).0, xs.drop_first())
    }
}

/// Which of the `complete` calls reporting `xs`, in order, made the slot
/// ready.
pub open spec fn readying_reports<T>(slot: Option<Exit<T>>, xs: Seq<Exit<T>>) -> Seq<bool>
    decreases xs.len(),
{
    if xs.len() == 0 {
        Seq::empty()
    } else {
        seq![complete_spec(slot, xs[0]).1].add(
            readying_reports(complete_spec(slot, xs[0]).0, xs.drop_first()),
        )
    }
}

proof fn lemma_done_slot_stays<T>(slot: Option<Exit<T>>, xs: Seq<Exit<T>>)
    requires
        slot is Some,
    ensures
        after_exits(slot, xs) == slot,
        readying_reports(slot, xs).len() == xs.len(),
        forall|i: int| 0 <= i < xs.len() ==> !#[trigger] readying_reports(slot, xs)[i],
    decreases xs.len(),
{
    if xs.len() > 0 {
        lemma_done_slot_stays(complete_spec(slot, xs[0]).0, xs.drop_first());
    }
}

/// A coroutine that ends becomes ready exactly once: of any non-empty run of
/// reports on a fresh slot, the first and only the first makes it ready,
/// and the slot keeps that first report.
pub proof fn lemma_ready_exactly_once<T>(xs: Seq<Exit<T>>)
    requires
        xs.len() > 0,
    ensures
        readying_reports(None, xs).len() == xs.len(),
        readying_reports(None, xs)[0],
        forall|i: int| 1 <= i < xs.len() ==> !#[trigger] readying_reports(None, xs)[i],
        after_exits(None, xs) == Some(xs[0]),
{
    let rest = xs.drop_first();
    lemma_done_slot_stays(Some(xs[0]), rest);
    assert forall|i: int| 1 <= i < xs.len() implies !#[trigger] readying_reports(None, xs)[i] by {
        assert(readying_reports(None, xs)[i] == readying_reports(Some(xs[0]), rest)[i - 1]);
    }
}

/// Spawning and then joining is a call on another stack: a slot that the
/// coroutine's end `x` was reported to joins to the closure's value when it
/// returned one, and to its panic or its cancellation otherwise.
pub proof fn lemma_join_returns_exit<T>(x: Exit<T>)
    ensures
        complete_spec(None, x).0 == Some(x),
        x matches Exit::Returned(v) ==> join_result(complete_spec(None, x).0->0) == Ok::<T, JoinError>(v),
        x matches Exit::Panicked(m) ==> join_result(complete_spec(None, x).0->0) == Err::<T, JoinError>(
            JoinError::Panicked(m),
        ),
        x is Cancelled ==> join_result(complete_spec(None, x).0->0) == Err::<T, JoinError>(
            JoinError::Cancelled,
        ),
{
}

} // verus!
