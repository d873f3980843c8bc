//! Connection admission: a fixed number of permits, taken without waiting.

use vstd::prelude::*;

verus! {

/// Connections allowed per worker thread.
pub const CONNECTIONS_PER_WORKER: usize = 50;

/// The capacity for a number of worker threads: fifty connections per
/// thread, plus ten percent headroom, rounded down.
pub open spec fn capacity_for(worker_threads: nat) -> nat {
    (worker_threads * 50 * 110) / 100
}

/// One admission attempt: the new number of permits in use and whether the
/// attempt got one.
pub open spec fn admit_step(in_use: nat, capacity: nat) -> (nat, bool) {
    if in_use < capacity {
        ((in_use + 1) as nat, true)
    } else {
        (in_use, false)
    }
}

/// Permits in use after `n` admission attempts starting from `in_use`.
pub open spec fn after_admits(in_use: nat, capacity: nat, n: nat) -> nat
    decreases n,
{
    if n == 0 {
        in_use
    } else {
        admit_step(after_admits(in_use, capacity, (n - 1) as nat), capacity).0
    }
}

/// A ticket held for the lifetime of one admitted connection.
pub struct Permit {
    sealed: (),
}

/// Bounds the number of connections served at once.
pub struct AdmissionController {
    capacity: usize,
    in_use: usize,
}

impl AdmissionController {
    /// The fixed number of permits.
    pub closed spec fn capacity(&self) -> nat {
        self.capacity as nat
    }

    /// The permits currently held.
    pub closed spec fn in_use(&self) -> nat {
        self.in_use as nat
    }

    pub closed spec fn wf(&self) -> bool {
        self.in_use <= self.capacity
    }

    /// A controller sized for `worker_threads` worker threads.
    pub fn new(worker_threads: usize) -> (r: Self)
        requires
            worker_threads * 5500 <= usize::MAX,
        ensures
            r.wf(),
            r.capacity() == capacity_for(worker_threads as nat),
            r.in_use() == 0,
    {
        let base = worker_threads * CONNECTIONS_PER_WORKER;
        let capacity = (base * 110) / 100;
        AdmissionController { capacity, in_use: 0 }
    }

    /// The number of permits.
    pub fn max_connections(&self) -> (r: usize)
        ensures
            r == self.capacity(),
    {
        self.capacity
    }

    /// The number of permits held.
    pub fn active_connections(&self) -> (r: usize)
        ensures
            r == self.in_use(),
    {
        self.in_use
    }

    /// Takes a permit if one is free; never waits.
    pub fn try_admit(&mut self) -> (r: Option<Permit>)
        requires
            old(self).wf(),
        ensures
            final(self).wf(),
            final(self).capacity() == old(self).capacity(),
            (final(self).in_use(), r is Some) == admit_step(old(self).in_use(), old(self).capacity()),
    {
        if self.in_use < self.capacity {
            self.in_use = self.in_use + 1;
            Some(Permit { sealed: () })
        } else {
            None
        }
    }

    /// Gives a permit back.
    pub fn release(&mut self, permit: Permit)
        requires
            old(self).wf(),
            old(self).in_use() > 0,
        ensures
            final(self).wf(),
            final(self).capacity() == old(self).capacity(),
            final(self).in_use() == old(self).in_use() - 1,
    {
        let Permit { sealed: () } = permit;
        self.in_use = self.in_use - 1;
    }
}

/// Admission is strictly bounded: from no permits held, `capacity`
/// attempts all succeed and the next one is refused; after one release,
/// exactly one more attempt succeeds.
pub proof fn lemma_admission_bounded(capacity: nat)
    requires
        capacity > 0,
    ensures
        forall|n: nat| n <= capacity ==> #[trigger] after_admits(0, capacity, n) == n,
        forall|n: nat| n < capacity ==> #[trigger] admit_step(after_admits(0, capacity, n), capacity).1,
        !admit_step(after_admits(0, capacity, capacity), capacity).1,
        admit_step((after_admits(0, capacity, capacity) - 1) as nat, capacity) == (capacity, true),
        !admit_step(admit_step((after_admits(0, capacity, capacity) - 1) as nat, capacity).0, capacity).1,
{
    assert forall|n: nat| n <= capacity implies #[trigger] after_admits(0, capacity, n) == n by {
        lemma_after_admits(capacity, n);
    }
    lemma_after_admits(capacity, capacity);
}

proof fn lemma_after_admits(capacity: nat, n: nat)
    requires
        n <= capacity,
    ensures
        after_admits(0, capacity, n) == n,
    decreases n,
{
    if n > 0 {
        lemma_after_admits(capacity, (n - 1) as nat);
    }
}

} // verus!
