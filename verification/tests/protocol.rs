use goofy_ahh_alloc::allocator::{
    teardown_plan, AllocationRoute, DeallocationRoute, FileAllocator, TeardownStep,
};
use goofy_ahh_alloc::path::backing_file_name;
use goofy_ahh_alloc::registry::AllocationRecord;
use std::collections::HashSet;

#[test]
fn new_allocator_is_idle_and_empty() {
    let allocator = FileAllocator::new();
    assert!(!allocator.in_progress());
    assert_eq!(allocator.live_allocations(), 0);
    assert!(!allocator.is_file_backed(0x1000));
}

#[test]
fn allocate_then_deallocate_completes() {
    let sizes: [usize; 5] = [1, 7, 4096, 65_537, 1_048_576];
    let mut allocator = FileAllocator::new();
    let mut expected_index = 0u64;
    for size in sizes {
        let address = 0x7f00_0000_0000usize + size;
        let route = allocator.allocate(size, 8);
        assert_eq!(
            route,
            AllocationRoute::FileBacked { index: expected_index, length: size as u64 }
        );
        assert!(allocator.in_progress());
        assert_eq!(allocator.finish_allocate(address), None);
        assert!(!allocator.in_progress());
        let record = AllocationRecord { index: expected_index, size };
        assert_eq!(allocator.deallocate(address), DeallocationRoute::FileBacked { record });
        assert!(allocator.in_progress());
        allocator.finish_deallocate();
        assert!(!allocator.in_progress());
        expected_index += 1;
    }
    assert_eq!(allocator.live_allocations(), 0);
}

#[test]
fn registry_entry_exists_only_while_live() {
    let mut allocator = FileAllocator::new();
    let address = 0x5000_0000usize;
    let route = allocator.allocate(4096, 4096);
    assert_eq!(route, AllocationRoute::FileBacked { index: 0, length: 4096 });
    assert!(!allocator.is_file_backed(address));
    assert_eq!(allocator.live_allocations(), 0);
    allocator.finish_allocate(address);
    assert!(allocator.is_file_backed(address));
    assert_eq!(allocator.live_allocations(), 1);
    let route = allocator.deallocate(address);
    assert_eq!(
        route,
        DeallocationRoute::FileBacked { record: AllocationRecord { index: 0, size: 4096 } }
    );
    assert!(!allocator.is_file_backed(address));
    assert_eq!(allocator.live_allocations(), 0);
    allocator.finish_deallocate();
    assert!(!allocator.is_file_backed(address));
    assert_eq!(allocator.deallocate(address), DeallocationRoute::Fallback);
}

#[test]
fn unknown_address_goes_to_fallback() {
    let mut allocator = FileAllocator::new();
    allocator.allocate(64, 8);
    allocator.finish_allocate(0x1000);
    assert_eq!(allocator.deallocate(0x2000), DeallocationRoute::Fallback);
    assert!(!allocator.in_progress());
    assert!(allocator.is_file_backed(0x1000));
    assert_eq!(allocator.live_allocations(), 1);
    assert_eq!(allocator.allocate(8, 8), AllocationRoute::FileBacked { index: 1, length: 8 });
}

#[test]
fn busy_guard_routes_allocation_to_fallback() {
    let mut allocator = FileAllocator::new();
    assert_eq!(allocator.allocate(32, 8), AllocationRoute::FileBacked { index: 0, length: 32 });
    assert_eq!(allocator.allocate(24, 8), AllocationRoute::Fallback);
    assert_eq!(allocator.allocate(1 << 20, 4096), AllocationRoute::Fallback);
    assert!(allocator.in_progress());
    assert_eq!(allocator.live_allocations(), 0);
    allocator.finish_allocate(0x9000);
    assert_eq!(allocator.allocate(24, 8), AllocationRoute::FileBacked { index: 1, length: 24 });
}

#[test]
fn allocation_during_teardown_goes_to_fallback() {
    let mut allocator = FileAllocator::new();
    allocator.allocate(32, 8);
    allocator.finish_allocate(0x9000);
    allocator.deallocate(0x9000);
    assert!(allocator.in_progress());
    assert_eq!(allocator.allocate(100, 8), AllocationRoute::Fallback);
    allocator.finish_deallocate();
    assert_eq!(allocator.allocate(100, 8), AllocationRoute::FileBacked { index: 1, length: 100 });
}

#[test]
fn deallocation_does_not_consult_the_guard() {
    let mut allocator = FileAllocator::new();
    allocator.allocate(32, 8);
    allocator.finish_allocate(0x9000);
    allocator.allocate(48, 8);
    assert!(allocator.in_progress());
    assert_eq!(
        allocator.deallocate(0x9000),
        DeallocationRoute::FileBacked { record: AllocationRecord { index: 0, size: 32 } }
    );
    assert_eq!(allocator.deallocate(0x9000), DeallocationRoute::Fallback);
}

#[test]
fn alignment_plays_no_part() {
    let mut one = FileAllocator::new();
    let mut other = FileAllocator::new();
    assert_eq!(one.allocate(4096, 1), other.allocate(4096, 1 << 21));
}

#[test]
fn zero_size_is_routed_like_any_other() {
    let mut allocator = FileAllocator::new();
    assert_eq!(allocator.allocate(0, 1), AllocationRoute::FileBacked { index: 0, length: 0 });
}

#[test]
fn registering_an_address_again_hands_back_the_old_record() {
    let mut allocator = FileAllocator::new();
    allocator.allocate(16, 8);
    assert_eq!(allocator.finish_allocate(0x4000), None);
    allocator.allocate(32, 8);
    assert_eq!(
        allocator.finish_allocate(0x4000),
        Some(AllocationRecord { index: 0, size: 16 })
    );
    assert_eq!(allocator.live_allocations(), 1);
    assert_eq!(
        allocator.deallocate(0x4000),
        DeallocationRoute::FileBacked { record: AllocationRecord { index: 1, size: 32 } }
    );
}

#[test]
fn two_clients_taking_turns_get_distinct_files() {
    let rounds = 500usize;
    let mut allocator = FileAllocator::new();
    let mut created: HashSet<String> = HashSet::new();
    let mut deleted: HashSet<String> = HashSet::new();
    for round in 0..rounds {
        for client in 0..2usize {
            let size = 1 + round;
            let address = 0x1_0000_0000usize * (client + 1) + round * 4096;
            let index = match allocator.allocate(size, 8) {
                AllocationRoute::FileBacked { index, length } => {
                    assert_eq!(length, size as u64);
                    index
                }
                AllocationRoute::Fallback => panic!("the guard was idle"),
            };
            assert!(created.insert(backing_file_name(index)));
            assert_eq!(allocator.finish_allocate(address), None);
            match allocator.deallocate(address) {
                DeallocationRoute::FileBacked { record } => {
                    assert_eq!(record, AllocationRecord { index, size });
                    assert!(deleted.insert(backing_file_name(record.index)));
                }
                DeallocationRoute::Fallback => panic!("the address was registered"),
            }
            allocator.finish_deallocate();
        }
    }
    assert_eq!(created.len(), 2 * rounds);
    assert_eq!(deleted.len(), 2 * rounds);
    assert_eq!(created, deleted);
    assert_eq!(allocator.live_allocations(), 0);
    assert!(!allocator.in_progress());
}

#[test]
fn live_allocations_overlap() {
    let mut allocator = FileAllocator::new();
    for i in 0..10usize {
        let index = match allocator.allocate(4096, 4096) {
            AllocationRoute::FileBacked { index, .. } => index,
            AllocationRoute::Fallback => panic!("the guard was idle"),
        };
        assert_eq!(index, i as u64);
        allocator.finish_allocate(0x10_0000 + i * 4096);
    }
    assert_eq!(allocator.live_allocations(), 10);
    for i in (0..10usize).rev() {
        let route = allocator.deallocate(0x10_0000 + i * 4096);
        assert_eq!(
            route,
            DeallocationRoute::FileBacked {
                record: AllocationRecord { index: i as u64, size: 4096 }
            }
        );
        allocator.finish_deallocate();
    }
    assert_eq!(allocator.live_allocations(), 0);
}

#[test]
fn teardown_deletes_the_file_last() {
    assert_eq!(
        teardown_plan(),
        [TeardownStep::ReleaseMapping, TeardownStep::CloseFile, TeardownStep::DeleteFile]
    );
}

#[test]
fn exhausted_names_route_to_fallback() {
    let mut allocator = FileAllocator::starting_at(u64::MAX - 1);
    assert_eq!(
        allocator.allocate(64, 8),
        AllocationRoute::FileBacked { index: u64::MAX - 1, length: 64 }
    );
    assert_eq!(allocator.finish_allocate(0x8000), None);
    assert_eq!(allocator.allocate(64, 8), AllocationRoute::Fallback);
    assert!(!allocator.in_progress());
    assert_eq!(allocator.allocate(1, 1), AllocationRoute::Fallback);
    assert_eq!(allocator.live_allocations(), 1);
    assert_eq!(
        allocator.deallocate(0x8000),
        DeallocationRoute::FileBacked { record: AllocationRecord { index: u64::MAX - 1, size: 64 } }
    );
    allocator.finish_deallocate();
    assert_eq!(allocator.allocate(64, 8), AllocationRoute::Fallback);
}

#[test]
fn flags_follow_the_steps() {
    let mut allocator = FileAllocator::new();
    assert!(!allocator.is_allocating());
    assert!(!allocator.is_deallocating());
    allocator.allocate(10, 2);
    assert!(allocator.is_allocating());
    assert!(!allocator.is_deallocating());
    allocator.finish_allocate(0x6000);
    assert!(!allocator.is_allocating());
    allocator.deallocate(0x6000);
    assert!(allocator.is_deallocating());
    assert!(!allocator.is_allocating());
    allocator.finish_deallocate();
    assert!(!allocator.is_deallocating());
}

#[test]
fn record_keeps_what_the_request_asked_for() {
    let mut allocator = FileAllocator::starting_at(40);
    assert_eq!(allocator.allocate(777, 8), AllocationRoute::FileBacked { index: 40, length: 777 });
    assert_eq!(allocator.allocate(5, 8), AllocationRoute::Fallback);
    allocator.finish_allocate(0xA000);
    assert_eq!(
        allocator.deallocate(0xA000),
        DeallocationRoute::FileBacked { record: AllocationRecord { index: 40, size: 777 } }
    );
}

#[test]
fn overlapping_allocations_have_their_own_files() {
    let mut allocator = FileAllocator::new();
    let mut indices: HashSet<u64> = HashSet::new();
    for i in 0..64usize {
        let index = match allocator.allocate(16 + i, 8) {
            AllocationRoute::FileBacked { index, .. } => index,
            AllocationRoute::Fallback => panic!("the guard was idle"),
        };
        allocator.finish_allocate(0x20_0000 + i * 4096);
        assert!(indices.insert(index));
        if i % 3 == 2 {
            let victim = 0x20_0000 + (i - 1) * 4096;
            match allocator.deallocate(victim) {
                DeallocationRoute::FileBacked { record } => assert!(indices.contains(&record.index)),
                DeallocationRoute::Fallback => panic!("the address was registered"),
            }
            allocator.finish_deallocate();
        }
    }
    let mut torn_down: HashSet<u64> = HashSet::new();
    for i in 0..64usize {
        if let DeallocationRoute::FileBacked { record } = allocator.deallocate(0x20_0000 + i * 4096) {
            assert!(torn_down.insert(record.index));
            allocator.finish_deallocate();
        }
    }
    assert_eq!(allocator.live_allocations(), 0);
}
