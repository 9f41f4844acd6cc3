//! Two small contracts: one adds numbers for its callers, the other keeps a
//! counter that each call advances.
use vstd::prelude::*;

verus! {

/// A contract that other contracts call to add two numbers.
pub struct ContractA;

impl ContractA {
    /// The sum of `x` and `y`, which must fit in a `u32`.
    pub fn add(x: u32, y: u32) -> (r: u32)
        requires
            x + y <= u32::MAX,
        ensures
            r == x + y,
    {
        x + y
    }
}

/// A contract that counts its calls.
pub struct IncrementContract {
    count: u32,
}

impl IncrementContract {
    pub closed spec fn spec_count(&self) -> u32 {
        self.count
    }

    /// A counter that has not been called yet.
    pub fn new() -> (r: IncrementContract)
        ensures
            r.spec_count() == 0,
    {
        IncrementContract { count: 0 }
    }

    /// The number of calls so far.
    pub fn count(&self) -> (r: u32)
        ensures
            r == self.spec_count(),
    {
        self.count
    }

    /// Advances the counter and returns its new value; the counter must not be at
    /// `u32::MAX`.
    pub fn increment(&mut self) -> (r: u32)
        requires
            old(self).spec_count() < u32::MAX,
        ensures
            r == old(self).spec_count() + 1,
            final(self).spec_count() == r,
    {
        self.count = self.count + 1;
        self.count
    }
}

} // verus!
