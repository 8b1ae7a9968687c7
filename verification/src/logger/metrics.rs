//! The two kinds of metric that the logger writes to.

use vstd::prelude::*;

verus! {

/// A metric that counts. It wraps around at the end of the 64-bit range.
#[derive(Debug)]
pub struct SharedIncMetric {
    count: u64,
}

impl View for SharedIncMetric {
    type V = u64;

    closed spec fn view(&self) -> u64 {
        self.count
    }
}

impl Default for SharedIncMetric {
    /// A counter at zero.
    fn default() -> (metric: Self)
        ensures
            metric@ == 0,
    {
        SharedIncMetric { count: 0 }
    }
}

impl SharedIncMetric {
    /// Counts one more.
    pub fn inc(&mut self)
        ensures
            final(self)@ == (old(self)@ + 1) % 0x1_0000_0000_0000_0000,
    {
        self.count = self.count.wrapping_add(1);
    }

    /// The count.
    pub fn count(&self) -> (n: u64)
        ensures
            n == self@,
    {
        self.count
    }
}

/// A metric that holds the value last stored.
#[derive(Debug)]
pub struct SharedStoreMetric {
    value: u64,
}

impl View for SharedStoreMetric {
    type V = u64;

    closed spec fn view(&self) -> u64 {
        self.value
    }
}

impl Default for SharedStoreMetric {
    /// A metric that holds zero.
    fn default() -> (metric: Self)
        ensures
            metric@ == 0,
    {
        SharedStoreMetric { value: 0 }
    }
}

impl SharedStoreMetric {
    /// Replaces the value.
    pub fn store(&mut self, value: u64)
        ensures
            final(self)@ == value,
    {
        self.value = value;
    }

    /// The value last stored.
    pub fn fetch(&self) -> (value: u64)
        ensures
            value == self@,
    {
        self.value
    }
}

} // verus!
