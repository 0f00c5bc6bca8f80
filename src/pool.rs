//! The pool of coroutine stacks: a bounded free list, most recently
//! returned first. A spawn reuses a free stack of the size it asks for, or
//! allocates a fresh one; a finished coroutine's stack goes back to the
//! list while there is room, and is released otherwise.
use vstd::prelude::*;

verus! {

/// A coroutine stack: its allocation number and its size in bytes.
#[derive(Clone, Copy, Debug, PartialEq, Eq, Structural)]
pub struct Stack {
    pub id: u64,
    pub size: usize,
}

/// The pool: how many free stacks it keeps at most, the free stacks, and
/// how many stacks it has allocated so far.
pub struct StackPool {
    capacity: usize,
    free: Vec<Stack>,
    allocated: u64,
}

/// The index of the most recently returned free stack of `size`, if any.
pub open spec fn last_fit(free: Seq<Stack>, size: usize) -> Option<int>
    decreases free.len(),
{
    if free.len() == 0 {
        None
    } else if free.last().size == size {
        Some(free.len() - 1)
    } else {
        last_fit(free.drop_last(), size)
    }
}

/// The pool `(capacity, free, allocated)` after a spawn asks for a stack of
/// `size`, and the stack it gets.
pub open spec fn acquire_spec(p: (usize, Seq<Stack>, u64), size: usize) -> ((usize, Seq<Stack>, u64), Stack) {
    match last_fit(p.1, size) {
        Some(i) => ((p.0, p.1.remove(i), p.2), p.1[i]),
        None => ((p.0, p.1, (p.2 + 1) as u64), Stack { id: p.2, size }),
    }
}

/// The pool after stack `s` comes back: kept while there is room.
pub open spec fn release_spec(p: (usize, Seq<Stack>, u64), s: Stack) -> (usize, Seq<Stack>, u64) {
    if p.1.len() < p.0 {
        (p.0, p.1.push(s), p.2)
    } else {
        p
    }
}

proof fn lemma_last_fit_found(free: Seq<Stack>, size: usize)
    ensures
        last_fit(free, size) matches Some(i) ==> 0 <= i < free.len() && free[i].size == size,
        last_fit(free, size) is None ==> forall|j: int| 0 <= j < free.len() ==> #[trigger] free[j].size != size,
    decreases free.len(),
{
    if free.len() > 0 && free.last().size != size {
        lemma_last_fit_found(free.drop_last(), size);
        assert forall|j: int| 0 <= j < free.len() - 1 implies #[trigger] free[j].size == free.drop_last()[j].size by {}
    }
}

impl StackPool {
    /// `(capacity, free stacks, stacks allocated so far)`.
    pub closed spec fn state(&self) -> (usize, Seq<Stack>, u64) {
        (self.capacity, self.free@, self.allocated)
    }

    /// An empty pool that keeps at most `capacity` free stacks.
    pub fn new(capacity: usize) -> (r: Self)
        ensures
            r.state() == (capacity, Seq::<Stack>::empty(), 0u64),
    {
        StackPool { capacity, free: Vec::new(), allocated: 0 }
    }

    /// How many free stacks the pool keeps at most.
    pub fn capacity(&self) -> (r: usize)
        ensures
            r == self.state().0,
    {
        self.capacity
    }

    /// How many stacks the pool has allocated so far.
    pub fn allocated(&self) -> (r: u64)
        ensures
            r == self.state().2,
    {
        self.allocated
    }

    /// How many free stacks the pool holds.
    pub fn free_len(&self) -> (r: usize)
        ensures
            r == self.state().1.len(),
    {
        self.free.len()
    }

    /// A stack of `size` for a new coroutine: the most recently returned
    /// free one of that size, or a fresh allocation.
    pub fn acquire(&mut self, size: usize) -> (r: Stack)
        requires
            old(self).state().2 < u64::MAX,
        ensures
            (final(self).state(), r) == acquire_spec(old(self).state(), size),
    {
        let mut i: usize = self.free.len();
        assert(self.free@.take(i as int) =~= self.free@);
        while i > 0
            invariant
                i <= self.free@.len(),
                self.free@ == old(self).free@,
                self.capacity == old(self).capacity,
                self.allocated == old(self).allocated,
                last_fit(self.free@, size) == last_fit(self.free@.take(i as int), size),
            decreases i,
        {
            let ghost prefix = self.free@.take(i as int);
            assert(prefix.drop_last() =~= self.free@.take(i - 1));
            if self.free[i - 1].size == size {
                let s = self.free.remove(i - 1);
                return s;
            }
            i = i - 1;
        }
        assert(self.free@.take(0) =~= Seq::<Stack>::empty());
        let s = Stack { id: self.allocated, size };
        self.allocated = self.allocated + 1;
        s
    }

    /// Takes back the stack of a finished coroutine; returns whether it was
    /// kept, which it is while the free list has room.
    pub fn release(&mut self, s: Stack) -> (r: bool)
        ensures
            final(self).state() == release_spec(old(self).state(), s),
            r == (old(self).state().1.len() < old(self).state().0),
    {
        if self.free.len() < self.capacity {
            self.free.push(s);
            true
        } else {
            false
        }
    }
}

/// The pool after `n` coroutines in turn take a stack of `size` and give it
/// back.
pub open spec fn cycles(p: (usize, Seq<Stack>, u64), size: usize, n: nat) -> (usize, Seq<Stack>, u64)
    decreases n,
{
    if n == 0 {
        p
    } else {
        let (q, s) = acquire_spec(p, size);
        cycles(release_spec(q, s), size, (n - 1) as nat)
    }
}

proof fn lemma_cycles_reuse(p: (usize, Seq<Stack>, u64), size: usize, n: nat)
    requires
        p.0 >= 1,
        p.1.len() >= 1,
        p.1.len() <= p.0,
        forall|j: int| 0 <= j < p.1.len() ==> #[trigger] p.1[j].size == size,
    ensures
        cycles(p, size, n).2 == p.2,
        cycles(p, size, n).0 == p.0,
    decreases n,
{
    if n > 0 {
        lemma_last_fit_found(p.1, size);
        let i = last_fit(p.1, size)->0;
        let (q, s) = acquire_spec(p, size);
        let r = release_spec(q, s);
        assert(q.1.len() == p.1.len() - 1);
        assert(r.1 == q.1.push(s));
        assert forall|j: int| 0 <= j < r.1.len() implies #[trigger] r.1[j].size == size by {
            if j < q.1.len() {
                assert(q.1[j] == p.1.remove(i)[j]);
            }
        }
        lemma_cycles_reuse(r, size, (n - 1) as nat);
    }
}

/// Stacks are reused: any number of coroutines that in turn take and give
/// back a stack of one size cost at most one allocation, when the pool has
/// room for a free stack and holds no free stacks of another size.
pub proof fn lemma_stack_reuse(p: (usize, Seq<Stack>, u64), size: usize, n: nat)
    requires
        p.0 >= 1,
        p.1.len() <= p.0,
        p.2 < u64::MAX,
        forall|j: int| 0 <= j < p.1.len() ==> #[trigger] p.1[j].size == size,
    ensures
        cycles(p, size, n).2 <= p.2 + 1,
{
    if n > 0 {
        lemma_last_fit_found(p.1, size);
        let (q, s) = acquire_spec(p, size);
        let r = release_spec(q, s);
        if p.1.len() == 0 {
            assert(r.1 == seq![s]);
        }
        assert forall|j: int| 0 <= j < r.1.len() implies #[trigger] r.1[j].size == size by {
            if p.1.len() > 0 && j < q.1.len() {
                let i = last_fit(p.1, size)->0;
                assert(q.1[j] == p.1.remove(i)[j]);
            }
        }
        lemma_cycles_reuse(r, size, (n - 1) as nat);
    }
}

} // verus!
