//! A small diagnostic counter for console statistics.

use vstd::prelude::*;

verus! {

/// A resettable event counter that can be switched off.
pub struct Counter {
    counter: u32,
    enable: bool,
}

impl Counter {
    /// The current count.
    pub closed spec fn count(&self) -> u32 {
        self.counter
    }

    /// Whether the counter is switched on.
    pub closed spec fn enabled(&self) -> bool {
        self.enable
    }

    pub fn new() -> (c: Counter)
        ensures
            c.count() == 0,
            c.enabled(),
    {
        Counter { counter: 0u32, enable: true }
    }

    pub fn get(&self) -> (n: u32)
        ensures
            n == self.count(),
    {
        self.counter
    }

    pub fn reset(&mut self)
        ensures
            final(self).count() == 0,
            final(self).enabled() == old(self).enabled(),
    {
        self.counter = 0u32;
    }

    pub fn increment(&mut self)
        requires
            old(self).count() < u32::MAX,
        ensures
            final(self).count() == old(self).count() + 1,
            final(self).enabled() == old(self).enabled(),
    {
        self.counter = self.counter + 1;
    }

    pub fn enable(&mut self, state: bool)
        ensures
            final(self).enabled() == state,
            final(self).count() == old(self).count(),
    {
        self.enable = state;
    }
}

} // verus!
