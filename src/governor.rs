//! The concurrency governor: the live limit on how many tasks may upload at
//! once.
use vstd::prelude::*;

verus! {

/// Holds the admission limit, a positive integer.
pub struct ConcurrencyGovernor {
    pub(crate) limit: u32,
}

impl ConcurrencyGovernor {
    /// The current limit.
    pub open(crate) spec fn limit(&self) -> nat {
        self.limit as nat
    }

    /// The limit is positive.
    pub open spec fn wf(&self) -> bool {
        self.limit() >= 1
    }

    /// A governor with limit `limit`.
    pub fn new(limit: u32) -> (r: ConcurrencyGovernor)
        requires
            limit >= 1,
        ensures
            r.wf(),
            r.limit() == limit,
    {
        ConcurrencyGovernor { limit }
    }

    /// Reads the current limit.
    pub fn get(&self) -> (r: u32)
        ensures
            r == self.limit(),
    {
        self.limit
    }

    /// Replaces the limit.
    pub fn set(&mut self, limit: u32)
        requires
            limit >= 1,
        ensures
            final(self).wf(),
            final(self).limit() == limit,
    {
        self.limit = limit;
    }
}

} // verus!
