//! Decision logic of a memory allocator whose allocations are backed by
//! individually memory-mapped temporary files.
//!
//! The crate holds the part of such an allocator that decides: the naming of
//! backing files, the reentrancy guard, the registry of live file-backed
//! addresses, and the allocate/deallocate protocol with its fallback route.
//! Creating, mapping and deleting files is left to the caller, which performs
//! the action that a protocol step hands out and reports the outcome back.

pub mod allocator;
pub mod guard;
pub mod laws;
pub mod path;
pub mod registry;

pub use allocator::{
    teardown_plan, AllocationRoute, AllocatorState, DeallocationRoute, FileAllocator, TeardownStep,
};
pub use guard::ReentrancyGuard;
pub use path::{backing_file_name, PathGenerator};
pub use registry::{AllocationRecord, AllocationRegistry};
