//! Process identifiers handed out by a counter that never reuses them.
use vstd::prelude::*;

verus! {

/// A process identifier.
pub struct PidHandle(pub usize);

/// Allocator that hands out identifiers in increasing order.
pub struct PidAllocator {
    current: usize,
}

impl PidAllocator {
    /// The next identifier to be handed out.
    pub closed spec fn next_pid(&self) -> usize {
        self.current
    }

    /// An allocator whose first identifier is 0.
    pub fn new() -> (r: PidAllocator)
        ensures
            r.next_pid() == 0,
    {
        PidAllocator { current: 0 }
    }

    /// Returns the counter and then increments it.
    fn fetch_add(&mut self) -> (r: usize)
        requires
            old(self).next_pid() < usize::MAX,
        ensures
            r == old(self).next_pid(),
            final(self).next_pid() == old(self).next_pid() + 1,
    {
        let new_pid = self.current;
        self.current = self.current + 1;
        new_pid
    }

    /// Hands out the next identifier.
    pub fn alloc_pid(&mut self) -> (r: PidHandle)
        requires
            old(self).next_pid() < usize::MAX,
        ensures
            r.0 == old(self).next_pid(),
            final(self).next_pid() == old(self).next_pid() + 1,
    {
        PidHandle(self.fetch_add())
    }
}

/// Hands out the next identifier of `allocator`.
pub fn pid_alloc(allocator: &mut PidAllocator) -> (r: PidHandle)
    requires
        old(allocator).next_pid() < usize::MAX,
    ensures
        r.0 == old(allocator).next_pid(),
        final(allocator).next_pid() == old(allocator).next_pid() + 1,
{
    allocator.alloc_pid()
}

} // verus!
