//! The allocate/deallocate protocol. Each operation is a pair of steps
//! around the work on files that the caller performs: the first step decides
//! the route and marks the guard, the second records the outcome and clears
//! the mark.

use crate::guard::ReentrancyGuard;
use crate::path::PathGenerator;
use crate::registry::{AllocationRecord, AllocationRegistry, MAX_INITIAL_CAPACITY};
use vstd::prelude::*;

verus! {

/// How a request for memory is to be served.
#[derive(Clone, Copy, Debug, PartialEq, Eq, Structural)]
pub enum AllocationRoute {
    /// By the platform's ordinary memory provider: no file, no registry entry.
    Fallback,
    /// By a new backing file: create or truncate the file named by `index`
    /// for reading and writing, set its length to exactly `length` bytes, map
    /// it for reading and writing, and report the mapping's base address.
    FileBacked { index: u64, length: u64 },
}

/// How memory that is given back is to be released.
#[derive(Clone, Copy, Debug, PartialEq, Eq, Structural)]
pub enum DeallocationRoute {
    /// By the platform's ordinary memory provider, which is taken to have
    /// handed the address out.
    Fallback,
    /// By tearing down the backing resources of `record`, in the order of
    /// `teardown_plan`.
    FileBacked { record: AllocationRecord },
}

/// One action of tearing down the backing resources of an allocation.
#[derive(Clone, Copy, Debug, PartialEq, Eq, Structural)]
pub enum TeardownStep {
    /// Release the memory mapping.
    ReleaseMapping,
    /// Close the handle of the backing file.
    CloseFile,
    /// Delete the backing file from the disk.
    DeleteFile,
}

/// The order of a teardown. The mapping and the handle go first: where a
/// file that is open or mapped cannot be removed, the deletion would fail.
pub open spec fn teardown_order() -> Seq<TeardownStep> {
    seq![TeardownStep::ReleaseMapping, TeardownStep::CloseFile, TeardownStep::DeleteFile]
}

/// The actions of a teardown, in the order in which they are to be performed.
pub fn teardown_plan() -> (plan: [TeardownStep; 3])
    ensures
        plan@ == teardown_order(),
{
    let plan = [TeardownStep::ReleaseMapping, TeardownStep::CloseFile, TeardownStep::DeleteFile];
    assert(plan@ =~= teardown_order());
    plan
}

/// What an allocator amounts to: its two guard flags, the record of the
/// allocation whose file is being made, the sequence number of the next
/// backing file, and the records of the live file-backed allocations.
pub struct AllocatorState {
    pub allocating: bool,
    pub deallocating: bool,
    pub pending: Option<AllocationRecord>,
    pub next_index: u64,
    pub registry: Map<usize, AllocationRecord>,
}

impl AllocatorState {
    /// The state of a new allocator whose backing files are numbered from
    /// `first`.
    pub open spec fn starting_at(first: u64) -> AllocatorState {
        AllocatorState {
            allocating: false,
            deallocating: false,
            pending: None,
            next_index: first,
            registry: Map::empty(),
        }
    }

    /// The state of a new allocator.
    pub open spec fn initial() -> AllocatorState {
        AllocatorState::starting_at(0)
    }

    /// Whether a file-backed allocation or deallocation is under way.
    pub open spec fn busy(self) -> bool {
        self.allocating || self.deallocating
    }

    /// Whether no sequence number is left for a further backing file.
    pub open spec fn exhausted(self) -> bool {
        self.next_index == u64::MAX
    }

    /// Whether the backing file with sequence number `index` is in use: it
    /// is being made, or it backs a live allocation.
    pub open spec fn uses_file(self, index: u64) -> bool {
        ||| self.pending is Some && self.pending->0.index == index
        ||| exists|address: usize| #[trigger]
            self.registry.contains_key(address) && self.registry[address].index == index
    }

    /// What holds of every state that an allocator gets into:
    /// - finitely many allocations are live;
    /// - an allocation is pending exactly while the allocating flag is set;
    /// - every backing file in use was named before, so that the next
    ///   sequence number is new;
    /// - no backing file serves two allocations.
    pub open spec fn wf(self) -> bool {
        &&& self.registry.dom().finite()
        &&& self.allocating <==> self.pending is Some
        &&& self.pending is Some ==> self.pending->0.index < self.next_index
        &&& forall|address: usize| #[trigger]
            self.registry.contains_key(address) ==> self.registry[address].index
                < self.next_index
        &&& forall|address: usize| #[trigger]
            self.registry.contains_key(address) && self.pending is Some
                ==> self.registry[address].index != self.pending->0.index
        &&& forall|one: usize, other: usize|
            #![trigger self.registry.contains_key(one), self.registry.contains_key(other)]
            self.registry.contains_key(one) && self.registry.contains_key(other) && one != other
                ==> self.registry[one].index != self.registry[other].index
    }

    /// Whether a request for memory takes the file-backed route: nothing is
    /// under way and a sequence number is left.
    pub open spec fn serves_from_file(self) -> bool {
        !self.busy() && !self.exhausted()
    }

    /// The route of a request for `size` bytes. The alignment asked for plays
    /// no part in it.
    pub open spec fn route_of_allocation(self, size: usize) -> AllocationRoute {
        if self.serves_from_file() {
            AllocationRoute::FileBacked { index: self.next_index, length: size as u64 }
        } else {
            AllocationRoute::Fallback
        }
    }

    /// The state after the first step of an allocation of `size` bytes.
    pub open spec fn after_begin_allocate(self, size: usize) -> AllocatorState {
        if self.serves_from_file() {
            AllocatorState {
                allocating: true,
                pending: Some(AllocationRecord { index: self.next_index, size }),
                next_index: (self.next_index + 1) as u64,
                ..self
            }
        } else {
            self
        }
    }

    /// The state after the pending allocation's mapping at `address` has
    /// been recorded.
    pub open spec fn after_finish_allocate(self, address: usize) -> AllocatorState {
        match self.pending {
            Some(record) => AllocatorState {
                allocating: false,
                pending: None,
                registry: self.registry.insert(address, record),
                ..self
            },
            None => self,
        }
    }

    /// The record that `address` is registered with, if any.
    pub open spec fn record_at(self, address: usize) -> Option<AllocationRecord> {
        if self.registry.contains_key(address) {
            Some(self.registry[address])
        } else {
            None
        }
    }

    /// The route of giving `address` back.
    pub open spec fn route_of_deallocation(self, address: usize) -> DeallocationRoute {
        match self.record_at(address) {
            Some(record) => DeallocationRoute::FileBacked { record },
            None => DeallocationRoute::Fallback,
        }
    }

    /// The state after the first step of a deallocation.
    pub open spec fn after_begin_deallocate(self, address: usize) -> AllocatorState {
        if self.registry.contains_key(address) {
            AllocatorState {
                deallocating: true,
                registry: self.registry.remove(address),
                ..self
            }
        } else {
            self
        }
    }

    /// The state after the backing resources have been torn down.
    pub open spec fn after_finish_deallocate(self) -> AllocatorState {
        AllocatorState { deallocating: false, ..self }
    }
}

/// The allocator's bookkeeping: the reentrancy guard, the source of
/// backing-file names, the record of the allocation whose file is being
/// made, and the registry of live file-backed allocations. One instance
/// serves the whole process.
pub struct FileAllocator {
    guard: ReentrancyGuard,
    paths: PathGenerator,
    pending: Option<AllocationRecord>,
    registry: AllocationRegistry,
}

impl View for FileAllocator {
    type V = AllocatorState;

    closed spec fn view(&self) -> AllocatorState {
        AllocatorState {
            allocating: self.guard.allocating(),
            deallocating: self.guard.deallocating(),
            pending: self.pending,
            next_index: self.paths.upcoming(),
            registry: self.registry@,
        }
    }
}

impl FileAllocator {
    /// An allocator is well formed when its state is.
    pub open spec fn wf(&self) -> bool {
        self@.wf()
    }

    /// An allocator with nothing under way, no live allocation, and a
    /// registry sized for a million entries.
    pub fn new() -> (allocator: Self)
        ensures
            allocator.wf(),
            allocator@ == AllocatorState::initial(),
    {
        FileAllocator::starting_at(0)
    }

    /// Such an allocator whose backing files are numbered from `first`.
    pub fn starting_at(first: u64) -> (allocator: Self)
        ensures
            allocator.wf(),
            allocator@ == AllocatorState::starting_at(first),
    {
        FileAllocator {
            guard: ReentrancyGuard::new(),
            paths: PathGenerator::starting_at(first),
            pending: None,
            registry: AllocationRegistry::with_capacity(MAX_INITIAL_CAPACITY),
        }
    }

    /// First step of an allocation of `size` bytes. While the guard is busy,
    /// or when no sequence number is left, the request goes to the fallback
    /// and nothing changes. Otherwise the allocating flag is set, the next
    /// backing file is named and its record kept as pending; the registry
    /// stays as it is until the mapping is reported.
    pub fn allocate(&mut self, size: usize, _align: usize) -> (route: AllocationRoute)
        requires
            old(self).wf(),
        ensures
            final(self).wf(),
            route == old(self)@.route_of_allocation(size),
            final(self)@ == old(self)@.after_begin_allocate(size),
    {
        if self.guard.in_progress() || self.paths.exhausted() {
            AllocationRoute::Fallback
        } else {
            self.guard.set_allocating(true);
            let index = self.paths.next_index();
            self.pending = Some(AllocationRecord { index, size });
            AllocationRoute::FileBacked { index, length: size as u64 }
        }
    }

    /// Second step of a file-backed allocation: the pending allocation's
    /// file is mapped at `address`. The address is registered with the
    /// pending record and the allocating flag is cleared. A record that the
    /// address was registered with before is returned, its place taken by
    /// the new one.
    pub fn finish_allocate(&mut self, address: usize) -> (displaced: Option<AllocationRecord>)
        requires
            old(self).wf(),
            old(self)@.allocating,
        ensures
            final(self).wf(),
            displaced == old(self)@.record_at(address),
            final(self)@ == old(self)@.after_finish_allocate(address),
    {
        let record = self.pending.unwrap();
        let displaced = self.registry.insert(address, record);
        self.pending = None;
        self.guard.set_allocating(false);
        displaced
    }

    /// First step of a deallocation. An address that is registered leaves
    /// the registry, the deallocating flag is set, and its record is handed
    /// out for teardown. Any other address goes to the fallback and nothing
    /// changes. The guard is not consulted.
    pub fn deallocate(&mut self, address: usize) -> (route: DeallocationRoute)
        requires
            old(self).wf(),
        ensures
            final(self).wf(),
            route == old(self)@.route_of_deallocation(address),
            final(self)@ == old(self)@.after_begin_deallocate(address),
    {
        match self.registry.remove(address) {
            Some(record) => {
                self.guard.set_deallocating(true);
                DeallocationRoute::FileBacked { record }
            },
            None => {
                assert(self.registry@ =~= old(self).registry@);
                DeallocationRoute::Fallback
            },
        }
    }

    /// Second step of a file-backed deallocation: the backing resources are
    /// gone, and the deallocating flag is cleared.
    pub fn finish_deallocate(&mut self)
        requires
            old(self).wf(),
            old(self)@.deallocating,
        ensures
            final(self).wf(),
            final(self)@ == old(self)@.after_finish_deallocate(),
    {
        self.guard.set_deallocating(false);
    }

    /// Whether a file-backed allocation or deallocation is under way.
    pub fn in_progress(&self) -> (busy: bool)
        ensures
            busy == self@.busy(),
    {
        self.guard.in_progress()
    }

    /// Whether a file-backed allocation is under way.
    pub fn is_allocating(&self) -> (under_way: bool)
        ensures
            under_way == self@.allocating,
    {
        self.guard.is_allocating()
    }

    /// Whether a file-backed deallocation is under way.
    pub fn is_deallocating(&self) -> (under_way: bool)
        ensures
            under_way == self@.deallocating,
    {
        self.guard.is_deallocating()
    }

    /// Whether `address` is the base of a live file-backed allocation.
    pub fn is_file_backed(&self, address: usize) -> (found: bool)
        ensures
            found == self@.registry.contains_key(address),
    {
        self.registry.contains(address)
    }

    /// Number of live file-backed allocations.
    pub fn live_allocations(&self) -> (count: usize)
        requires
            self.wf(),
        ensures
            count == self@.registry.len(),
    {
        self.registry.len()
    }
}

} // verus!
