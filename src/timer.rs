//! The timeout list: entries with a deadline on a monotonic clock, in
//! milliseconds. The timer thread fires the entries whose deadline has
//! passed; an entry may be removed before it fires.
use vstd::prelude::*;

verus! {

/// One timed wait: when it is due, and the id of the wakeup cell it fires.
#[derive(Clone, Copy, Debug, PartialEq, Eq, Structural)]
pub struct TimerEntry {
    pub deadline: u64,
    pub id: u64,
}

/// The entry is due at time `now`.
pub open spec fn is_due(now: u64, e: TimerEntry) -> bool {
    e.deadline <= now
}

/// The entries that fire at `now`, in the order they were added.
pub open spec fn due_at(entries: Seq<TimerEntry>, now: u64) -> Seq<TimerEntry> {
    entries.filter(|e: TimerEntry| is_due(now, e))
}

/// The entries still waiting after `now`, in the order they were added.
pub open spec fn pending_after(entries: Seq<TimerEntry>, now: u64) -> Seq<TimerEntry> {
    entries.filter(|e: TimerEntry| !is_due(now, e))
}

/// The entries other than those of cell `id`.
pub open spec fn without_id(entries: Seq<TimerEntry>, id: u64) -> Seq<TimerEntry> {
    entries.filter(|e: TimerEntry| e.id != id)
}

/// The timeout list.
pub struct TimerList {
    entries: Vec<TimerEntry>,
}

proof fn lemma_filter_step(s: Seq<TimerEntry>, e: TimerEntry, p: spec_fn(TimerEntry) -> bool)
    ensures
        s.push(e).filter(p) == (if p(e) {
            s.filter(p).push(e)
        } else {
            s.filter(p)
        }),
{
    assert(s.push(e).drop_last() =~= s);
    reveal_with_fuel(Seq::filter, 1);
}

impl TimerList {
    /// The entries, in the order they were added.
    pub closed spec fn entries(&self) -> Seq<TimerEntry> {
        self.entries@
    }

    /// An empty list.
    pub fn new() -> (r: Self)
        ensures
            r.entries() == Seq::<TimerEntry>::empty(),
    {
        TimerList { entries: Vec::new() }
    }

    /// The number of entries waiting.
    pub fn len(&self) -> (r: usize)
        ensures
            r == self.entries().len(),
    {
        self.entries.len()
    }

    /// Adds a wait of `dur` from `now` for cell `id`; returns its deadline.
    pub fn add_timer(&mut self, now: u64, dur: u64, id: u64) -> (r: u64)
        requires
            now + dur <= u64::MAX,
        ensures
            r == now + dur,
            final(self).entries() == old(self).entries().push(TimerEntry { deadline: r, id }),
    {
        let deadline = now + dur;
        self.entries.push(TimerEntry { deadline, id });
        deadline
    }

    /// Removes the entries of cell `id`, which then never fire; returns
    /// whether there were any.
    pub fn del_timer(&mut self, id: u64) -> (r: bool)
        ensures
            final(self).entries() == without_id(old(self).entries(), id),
            r == (without_id(old(self).entries(), id).len() < old(self).entries().len()),
    {
        let ghost all = self.entries@;
        let ghost p = |e: TimerEntry| e.id != id;
        let mut kept: Vec<TimerEntry> = Vec::new();
        let mut i: usize = 0;
        while i < self.entries.len()
            invariant
                self.entries@ == all,
                p == (|e: TimerEntry| e.id != id),
                i <= all.len(),
                kept@ == all.take(i as int).filter(p),
            decreases all.len() - i,
        {
            let e = self.entries[i];
            proof {
                assert(all.take(i + 1) =~= all.take(i as int).push(e));
                lemma_filter_step(all.take(i as int), e, p);
            }
            if e.id != id {
                kept.push(e);
            }
            i = i + 1;
        }
        assert(all.take(all.len() as int) =~= all);
        let removed = kept.len() < self.entries.len();
        self.entries = kept;
        removed
    }

    /// The earliest deadline, which the timer thread sleeps until.
    pub fn next_deadline(&self) -> (r: Option<u64>)
        ensures
            r is None <==> self.entries().len() == 0,
            r matches Some(d) ==> (exists|i: int|
                0 <= i < self.entries().len() && #[trigger] self.entries()[i].deadline == d)
                && forall|i: int| 0 <= i < self.entries().len() ==> d <= #[trigger] self.entries()[i].deadline,
    {
        if self.entries.len() == 0 {
            return None;
        }
        let mut best: u64 = self.entries[0].deadline;
        let ghost mut at: int = 0;
        let mut i: usize = 1;
        while i < self.entries.len()
            invariant
                1 <= i <= self.entries@.len(),
                0 <= at < self.entries@.len(),
                self.entries@[at].deadline == best,
                forall|j: int| 0 <= j < i ==> best <= #[trigger] self.entries@[j].deadline,
            decreases self.entries@.len() - i,
        {
            if self.entries[i].deadline < best {
                best = self.entries[i].deadline;
                proof {
                    at = i as int;
                }
            }
            i = i + 1;
        }
        Some(best)
    }

    /// Fires the entries due at `now`: removes and returns them, in the order
    /// they were added, keeping the others.
    pub fn expire(&mut self, now: u64) -> (r: Vec<TimerEntry>)
        ensures
            r@ == due_at(old(self).entries(), now),
            final(self).entries() == pending_after(old(self).entries(), now),
    {
        let ghost all = self.entries@;
        let ghost due = |e: TimerEntry| is_due(now, e);
        let ghost late = |e: TimerEntry| !is_due(now, e);
        let mut fired: Vec<TimerEntry> = Vec::new();
        let mut kept: Vec<TimerEntry> = Vec::new();
        let mut i: usize = 0;
        while i < self.entries.len()
            invariant
                self.entries@ == all,
                due == (|e: TimerEntry| is_due(now, e)),
                late == (|e: TimerEntry| !is_due(now, e)),
                i <= all.len(),
                fired@ == all.take(i as int).filter(due),
                kept@ == all.take(i as int).filter(late),
            decreases all.len() - i,
        {
            let e = self.entries[i];
            proof {
                assert(all.take(i + 1) =~= all.take(i as int).push(e));
                lemma_filter_step(all.take(i as int), e, due);
                lemma_filter_step(all.take(i as int), e, late);
            }
            if e.deadline <= now {
                fired.push(e);
            } else {
                kept.push(e);
            }
            i = i + 1;
        }
        assert(all.take(all.len() as int) =~= all);
        self.entries = kept;
        fired
    }
}

/// A timed wait never ends early: an entry added at `start` for `dur` fires
/// only at a time `now` with `now - start >= dur`.
pub proof fn lemma_sleep_not_early(entries: Seq<TimerEntry>, start: u64, dur: u64, id: u64, now: u64)
    requires
        start + dur <= u64::MAX,
        due_at(entries.push(TimerEntry { deadline: (start + dur) as u64, id }), now).contains(
            TimerEntry { deadline: (start + dur) as u64, id },
        ),
    ensures
        now - start >= dur,
{
    let e = TimerEntry { deadline: (start + dur) as u64, id };
    let s = entries.push(e);
    let due = |x: TimerEntry| is_due(now, x);
    broadcast use vstd::seq_lib::group_filter_ensures;
    let k = choose|k: int| 0 <= k < s.filter(due).len() && s.filter(due)[k] == e;
    assert(is_due(now, s.filter(due)[k]));
}

} // verus!
