//! Worker-permit controller: a bounded counter of running workers.
//!
//! A submission may spawn a worker only while fewer than `max_workers` are
//! running. Acquiring is a single compare-and-increment step, so no two
//! overlapping acquisitions can push the count past the limit, and a release
//! is a single decrement.

use vstd::prelude::*;

verus! {

/// Tracks how many workers currently hold a permit against the configured
/// maximum. `active` is mutated only through `try_acquire` and `release`.
pub struct PermitController {
    active: usize,
    max_workers: usize,
}

impl PermitController {
    /// The number of granted permits never exceeds the configured maximum.
    pub closed spec fn wf(&self) -> bool {
        self.active <= self.max_workers
    }

    /// How many permits are currently granted.
    pub closed spec fn active_count(&self) -> nat {
        self.active as nat
    }

    /// The configured maximum number of concurrently running workers.
    pub closed spec fn limit(&self) -> nat {
        self.max_workers as nat
    }

    /// A fresh controller: no worker is running yet.
    pub fn new(max_workers: usize) -> (c: PermitController)
        ensures
            c.wf(),
            c.active_count() == 0,
            c.limit() == max_workers,
    {
        PermitController { active: 0, max_workers }
    }

    /// Checks `active < max_workers` and increments as one step: the decision
    /// and the mutation are never observably separate, so concurrent
    /// submissions cannot overshoot the limit.
    pub fn try_acquire(&mut self) -> (granted: bool)
        requires
            old(self).wf(),
        ensures
            final(self).wf(),
            final(self).limit() == old(self).limit(),
            granted == (old(self).active_count() < old(self).limit()),
            granted ==> final(self).active_count() == old(self).active_count() + 1,
            !granted ==> final(self).active_count() == old(self).active_count(),
    {
        if self.active < self.max_workers {
            self.active = self.active + 1;
            true
        } else {
            false
        }
    }

    /// Returns the permit of a worker that is about to exit.
    pub fn release(&mut self)
        requires
            old(self).wf(),
            old(self).active_count() > 0,
        ensures
            final(self).wf(),
            final(self).limit() == old(self).limit(),
            final(self).active_count() == old(self).active_count() - 1,
    {
        self.active = self.active - 1;
    }

    /// The gauge value exported to telemetry: how many workers are running.
    pub fn active_workers(&self) -> (n: usize)
        ensures
            n == self.active_count(),
    {
        self.active
    }
}

} // verus!
