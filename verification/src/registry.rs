//! The registry of live file-backed allocations: which base addresses are
//! backed by a file, and by which one.

use dashmap::DashMap;
use vstd::prelude::*;

verus! {

/// Largest initial capacity that a registry is made with.
pub const MAX_INITIAL_CAPACITY: usize = 1_000_000;

/// One live file-backed allocation. The sequence number names the backing
/// file, and with it the open file and the mapping that the caller holds for
/// it; the size is the length of the file and of the mapping in bytes.
#[derive(Clone, Copy, Debug, PartialEq, Eq, Structural)]
pub struct AllocationRecord {
    pub index: u64,
    pub size: usize,
}

/// `dashmap::DashMap`, the concurrent hash map that holds the records.
/// Nothing inside it is visible here.
#[verifier::external_type_specification]
#[verifier::external_body]
#[verifier::reject_recursive_types(K)]
#[verifier::reject_recursive_types(V)]
#[verifier::reject_recursive_types(S)]
pub struct ExDashMap<K, V, S>(DashMap<K, V, S>);

/// The registry contents without any entry.
pub open spec fn no_entries() -> Map<usize, AllocationRecord> {
    Map::empty()
}

/// The entries that a `dashmap::DashMap` from addresses to records holds.
pub uninterp spec fn dashmap_entries(map: DashMap<usize, AllocationRecord>) -> Map<
    usize,
    AllocationRecord,
>;

/// `dashmap::DashMap::with_capacity`: the new map holds no entry. Capacities
/// above `MAX_INITIAL_CAPACITY` are left out, so that the sizes of the shard
/// tables cannot overflow.
#[verifier::external_body]
fn dashmap_with_capacity(capacity: usize) -> (fresh: DashMap<usize, AllocationRecord>)
    requires
        capacity <= MAX_INITIAL_CAPACITY,
    ensures
        dashmap_entries(fresh) == no_entries(),
{
    DashMap::with_capacity(capacity)
}

/// `dashmap::DashMap::insert`, called on a map that nothing else can reach:
/// the key is bound to the value, the other entries stay, and the value that
/// the key was bound to before, if any, is returned.
#[verifier::external_body]
fn dashmap_insert(
    map: &mut DashMap<usize, AllocationRecord>,
    address: usize,
    record: AllocationRecord,
) -> (previous: Option<AllocationRecord>)
    ensures
        dashmap_entries(*final(map)) == dashmap_entries(*old(map)).insert(address, record),
        previous == if dashmap_entries(*old(map)).contains_key(address) {
            Some(dashmap_entries(*old(map))[address])
        } else {
            None
        },
{
    map.insert(address, record)
}

/// `dashmap::DashMap::remove`, called on a map that nothing else can reach:
/// the key's entry leaves, the other entries stay, and the value that the
/// key was bound to, if any, is returned.
#[verifier::external_body]
fn dashmap_remove(map: &mut DashMap<usize, AllocationRecord>, address: usize) -> (removed: Option<
    AllocationRecord,
>)
    ensures
        dashmap_entries(*final(map)) == dashmap_entries(*old(map)).remove(address),
        removed == if dashmap_entries(*old(map)).contains_key(address) {
            Some(dashmap_entries(*old(map))[address])
        } else {
            None
        },
{
    map.remove(&address).map(|entry| entry.1)
}

/// `dashmap::DashMap::contains_key`: whether the key is bound.
#[verifier::external_body]
fn dashmap_contains_key(map: &DashMap<usize, AllocationRecord>, address: usize) -> (found: bool)
    ensures
        found == dashmap_entries(*map).contains_key(address),
{
    map.contains_key(&address)
}

/// `dashmap::DashMap::len`: the number of entries, for a map of finitely many.
#[verifier::external_body]
fn dashmap_len(map: &DashMap<usize, AllocationRecord>) -> (count: usize)
    requires
        dashmap_entries(*map).dom().finite(),
    ensures
        count == dashmap_entries(*map).len(),
{
    map.len()
}

/// Mapping from the base address of each live file-backed allocation to its
/// record. An address is a key exactly while its allocation is live.
pub struct AllocationRegistry {
    map: DashMap<usize, AllocationRecord>,
}

impl View for AllocationRegistry {
    type V = Map<usize, AllocationRecord>;

    closed spec fn view(&self) -> Map<usize, AllocationRecord> {
        dashmap_entries(self.map)
    }
}

impl AllocationRegistry {
    /// A registry is well formed when it holds finitely many entries.
    pub open spec fn wf(&self) -> bool {
        self@.dom().finite()
    }

    /// An empty registry with room for `capacity` entries; a capacity above
    /// `MAX_INITIAL_CAPACITY` counts as that.
    pub fn with_capacity(capacity: usize) -> (registry: Self)
        ensures
            registry.wf(),
            registry@ == no_entries(),
    {
        let capacity = if capacity <= MAX_INITIAL_CAPACITY {
            capacity
        } else {
            MAX_INITIAL_CAPACITY
        };
        AllocationRegistry { map: dashmap_with_capacity(capacity) }
    }

    /// Records the allocation at `address`. If the address was registered
    /// already, the new record takes the old one's place and the old one is
    /// returned.
    pub fn insert(&mut self, address: usize, record: AllocationRecord) -> (previous: Option<
        AllocationRecord,
    >)
        requires
            old(self).wf(),
        ensures
            final(self).wf(),
            final(self)@ == old(self)@.insert(address, record),
            previous == if old(self)@.contains_key(address) {
                Some(old(self)@[address])
            } else {
                None
            },
    {
        dashmap_insert(&mut self.map, address, record)
    }

    /// Takes the record of `address` out of the registry, if there is one:
    /// the membership test and the removal are one step.
    pub fn remove(&mut self, address: usize) -> (removed: Option<AllocationRecord>)
        requires
            old(self).wf(),
        ensures
            final(self).wf(),
            final(self)@ == old(self)@.remove(address),
            removed == if old(self)@.contains_key(address) {
                Some(old(self)@[address])
            } else {
                None
            },
    {
        dashmap_remove(&mut self.map, address)
    }

    /// Whether `address` is the base of a live file-backed allocation.
    pub fn contains(&self, address: usize) -> (found: bool)
        ensures
            found == self@.contains_key(address),
    {
        dashmap_contains_key(&self.map, address)
    }

    /// Number of live file-backed allocations.
    pub fn len(&self) -> (count: usize)
        requires
            self.wf(),
        ensures
            count == self@.len(),
    {
        dashmap_len(&self.map)
    }
}

} // verus!
