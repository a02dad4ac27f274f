//! The reentrancy guard: two flags that tell whether a file-backed
//! allocation or deallocation is under way. While either is set, the
//! allocator's own bookkeeping must get its memory elsewhere.

use vstd::prelude::*;

verus! {

/// The two in-progress flags. They belong to the whole allocator, not to one
/// call: the file-backed route sets a flag before its internal work and
/// clears it afterwards.
#[derive(Clone, Copy, Debug, PartialEq, Eq, Structural)]
pub struct ReentrancyGuard {
    allocating: bool,
    deallocating: bool,
}

impl ReentrancyGuard {
    /// Whether a file-backed allocation is marked as under way.
    pub closed spec fn allocating(&self) -> bool {
        self.allocating
    }

    /// Whether a file-backed deallocation is marked as under way.
    pub closed spec fn deallocating(&self) -> bool {
        self.deallocating
    }

    /// Whether either flag is set.
    pub open spec fn busy(&self) -> bool {
        self.allocating() || self.deallocating()
    }

    /// A guard with both flags clear.
    pub fn new() -> (guard: Self)
        ensures
            !guard.allocating(),
            !guard.deallocating(),
    {
        ReentrancyGuard { allocating: false, deallocating: false }
    }

    /// Whether a file-backed allocation or deallocation is under way.
    pub fn in_progress(&self) -> (busy: bool)
        ensures
            busy == self.busy(),
    {
        self.allocating || self.deallocating
    }

    /// Whether the allocating flag is set.
    pub fn is_allocating(&self) -> (set: bool)
        ensures
            set == self.allocating(),
    {
        self.allocating
    }

    /// Whether the deallocating flag is set.
    pub fn is_deallocating(&self) -> (set: bool)
        ensures
            set == self.deallocating(),
    {
        self.deallocating
    }

    /// Sets or clears the allocating flag; the other flag stays.
    pub fn set_allocating(&mut self, under_way: bool)
        ensures
            final(self).allocating() == under_way,
            final(self).deallocating() == old(self).deallocating(),
    {
        self.allocating = under_way;
    }

    /// Sets or clears the deallocating flag; the other flag stays.
    pub fn set_deallocating(&mut self, under_way: bool)
        ensures
            final(self).deallocating() == under_way,
            final(self).allocating() == old(self).allocating(),
    {
        self.deallocating = under_way;
    }
}

} // verus!
