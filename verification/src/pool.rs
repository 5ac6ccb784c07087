use vstd::prelude::*;

verus! {

/// The admission pool: a fixed pool of permits that caps how many probes may
/// be in flight at once. Exactly one permit is held per in-flight probe;
/// a probe holds its permit for its entire lifetime and returns it exactly
/// once, whatever its outcome, so capacity is never lost and never granted
/// beyond the pool's size.
pub struct AdmissionPool {
    capacity: usize,
    outstanding: usize,
}

impl AdmissionPool {
    /// The fixed number of permits the pool was created with.
    pub closed spec fn cap(&self) -> int {
        self.capacity as int
    }

    /// How many permits are currently held by in-flight probes.
    pub closed spec fn held(&self) -> int {
        self.outstanding as int
    }

    /// A pool is well formed when it has at least one permit and never has
    /// more permits outstanding than its capacity.
    pub open spec fn wf(&self) -> bool {
        &&& 1 <= self.cap()
        &&& 0 <= self.held() <= self.cap()
    }

    /// Creates a pool of `capacity` permits, all free.
    pub fn new(capacity: usize) -> (pool: Self)
        requires
            1 <= capacity,
        ensures
            pool.wf(),
            pool.cap() == capacity,
            pool.held() == 0,
    {
        AdmissionPool { capacity, outstanding: 0 }
    }

    /// True when a permit is free, i.e. fewer probes are in flight than the
    /// pool's capacity.
    pub fn has_free_permit(&self) -> (free: bool)
        requires
            self.wf(),
        ensures
            free == (self.held() < self.cap()),
    {
        self.outstanding < self.capacity
    }

    /// The number of permits currently held, for callers that instrument a
    /// run.
    pub fn held_count(&self) -> (held: usize)
        ensures
            held as int == self.held(),
    {
        self.outstanding
    }

    /// Draws one permit from the pool. Callers block (outside this crate)
    /// until a permit is free; this transition itself demands one.
    pub fn acquire(&mut self)
        requires
            old(self).wf(),
            old(self).held() < old(self).cap(),
        ensures
            final(self).wf(),
            final(self).cap() == old(self).cap(),
            final(self).held() == old(self).held() + 1,
    {
        self.outstanding = self.outstanding + 1;
    }

    /// Returns one held permit to the pool.
    pub fn release(&mut self)
        requires
            old(self).wf(),
            1 <= old(self).held(),
        ensures
            final(self).wf(),
            final(self).cap() == old(self).cap(),
            final(self).held() == old(self).held() - 1,
    {
        self.outstanding = self.outstanding - 1;
    }
}

/// Law: a well-formed pool never has more permits outstanding than its
/// capacity, so no more probes than the pool's size ever hold a permit at
/// the same time.
pub proof fn lemma_admission_bounded(pool: AdmissionPool)
    requires
        pool.wf(),
    ensures
        0 <= pool.held() <= pool.cap(),
{
}

} // verus!
