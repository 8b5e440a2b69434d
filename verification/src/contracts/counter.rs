//! A counter.
use vstd::prelude::*;

verus! {

/// A contract that counts.
#[derive(Debug, Clone, Copy, PartialEq, Eq, Structural)]
pub struct Counter {
    pub stored: u32,
}

impl Default for Counter {
    fn default() -> (r: Self)
        ensures
            r.stored == 0,
    {
        Counter { stored: 0 }
    }
}

impl Counter {
    /// Adds one and returns the new count.
    pub fn increment(&mut self) -> (r: u32)
        requires
            old(self).stored < u32::MAX,
        ensures
            r == old(self).stored + 1,
            final(self).stored == r,
    {
        self.stored = self.stored + 1;
        self.stored
    }

    /// The count.
    pub fn count(&self) -> (r: u32)
        ensures
            r == self.stored,
    {
        self.stored
    }
}

/// Each step counts one more than the last.
pub proof fn counters_count_by_one(c: &mut Counter, r: u32, shown: u32)
    requires
        call_ensures(Counter::increment, (c,), r),
        call_ensures(Counter::count, (&*final(c),), shown),
    ensures
        r == old(c).stored + 1,
        shown == r,
{
}

} // verus!
