//! The cancellation status of one coroutine: a cancelled flag, and the
//! I/O request it is blocked on, if any, so that a canceller can abort it.
use vstd::prelude::*;

verus! {

/// The cancellation status of one coroutine.
pub struct CancelStatus {
    cancelled: bool,
    io: Option<u64>,
}

/// What a coroutine finds when it checks for cancellation on resume.
pub enum Cancelled {
    /// Cancellation was requested; the coroutine unwinds.
    Requested,
}

/// A cancel of the status `s` (flag, registered I/O): the status it leaves,
/// flagged with no I/O left to abort, and the I/O it hands out to abort.
pub open spec fn cancel_spec(s: (bool, Option<u64>)) -> ((bool, Option<u64>), Option<u64>) {
    ((true, None), s.1)
}

impl CancelStatus {
    /// The cancelled flag and the registered I/O request.
    pub closed spec fn state(&self) -> (bool, Option<u64>) {
        (self.cancelled, self.io)
    }

    /// Not cancelled, with no I/O registered.
    pub fn new() -> (r: Self)
        ensures
            r.state() == (false, None::<u64>),
    {
        CancelStatus { cancelled: false, io: None }
    }

    /// Cancellation has been requested.
    pub fn is_canceled(&self) -> (r: bool)
        ensures
            r == self.state().0,
    {
        self.cancelled
    }

    /// Registers the I/O request `io` that the coroutine is about to block
    /// on, then re-checks the flag: `true` means that a cancel came first,
    /// and the caller must cancel the request itself.
    pub fn set_io(&mut self, io: u64) -> (r: bool)
        ensures
            final(self).state() == (old(self).state().0, Some(io)),
            r == old(self).state().0,
    {
        self.io = Some(io);
        self.cancelled
    }

    /// The I/O request finished: nothing is left to abort.
    pub fn clear_io(&mut self)
        ensures
            final(self).state() == (old(self).state().0, None::<u64>),
    {
        self.io = None;
    }

    /// Requests cancellation. Returns the registered I/O request, which the
    /// caller aborts; it is handed out once, so a repeated cancel has
    /// nothing more to do.
    pub fn cancel(&mut self) -> (r: Option<u64>)
        ensures
            (final(self).state(), r) == cancel_spec(old(self).state()),
    {
        self.cancelled = true;
        self.io.take()
    }

    /// The check that a coroutine makes when it resumes: an error when it
    /// has been cancelled, so that it unwinds.
    pub fn check_cancel(&self) -> (r: Result<(), Cancelled>)
        ensures
            r is Err <==> self.state().0,
    {
        if self.cancelled {
            Err(Cancelled::Requested)
        } else {
            Ok(())
        }
    }
}

/// Cancellation is idempotent: a second `cancel` leaves the status that the
/// first left, and hands out no I/O to abort.
pub proof fn lemma_cancel_idempotent(s: (bool, Option<u64>))
    ensures
        cancel_spec(cancel_spec(s).0).0 == cancel_spec(s).0,
        cancel_spec(cancel_spec(s).0).1 is None,
{
}

} // verus!
