//! Monotonic identifier sources.
//!
//! Every kind of kernel object (tasks, channels, endpoints, capabilities,
//! ...) is named by a number drawn from a counter that starts at 1 and
//! advances by one per draw, wrapping at `u64::MAX` like an atomic
//! `fetch_add` does.

use vstd::prelude::*;

verus! {

/// A source of fresh identifiers.
pub struct IdCounter {
    next: u64,
}

impl IdCounter {
    /// The identifier the next call of `next_id` hands out.
    pub closed spec fn peek(&self) -> u64 {
        self.next
    }

    /// A counter whose first identifier is 1.
    pub fn new() -> (c: Self)
        ensures
            c.peek() == 1,
    {
        IdCounter { next: 1 }
    }

    /// A counter whose first identifier is `first`.
    pub fn starting_at(first: u64) -> (c: Self)
        ensures
            c.peek() == first,
    {
        IdCounter { next: first }
    }

    /// Hand out the current identifier and advance the counter (wrapping).
    pub fn next_id(&mut self) -> (id: u64)
        ensures
            id == old(self).peek(),
            final(self).peek() == (if old(self).peek() == u64::MAX { 0 } else { (old(self).peek() + 1) as u64 }),
    {
        let id = self.next;
        self.next = self.next.wrapping_add(1);
        id
    }
}

} // verus!
