use goofy_ahh_alloc::allocator::{
    teardown_plan, AllocationRoute, DeallocationRoute, FileAllocator, TeardownStep,
};
use goofy_ahh_alloc::path::backing_file_name;
use memmap2::MmapMut;
use std::collections::HashMap;

/// Stands in for the temporary directory: the length of each file by name.
struct Directory {
    files: HashMap<String, u64>,
}

/// Runs one allocation of `size` bytes against an anonymous mapping, fills it
/// with `value`, checks the contents, and gives the region back.
fn fill_and_read_back(allocator: &mut FileAllocator, directory: &mut Directory, size: usize, value: u8) {
    let (index, length) = match allocator.allocate(size, 8) {
        AllocationRoute::FileBacked { index, length } => (index, length),
        AllocationRoute::Fallback => panic!("nothing was under way"),
    };
    let created = backing_file_name(index);
    assert_eq!(directory.files.insert(created.clone(), length), None);
    let mut mapping = MmapMut::map_anon(size).unwrap();
    let address = mapping.as_ptr() as usize;
    assert_eq!(allocator.finish_allocate(address), None);
    assert!(allocator.is_file_backed(address));
    assert_eq!(directory.files.get(&created), Some(&(size as u64)));

    assert_eq!(mapping.len(), size);
    assert!(mapping.iter().all(|byte| *byte == 0));
    mapping.fill(value);
    assert_eq!(mapping.len(), size);
    assert!(mapping.iter().all(|byte| *byte == value));

    let record = match allocator.deallocate(address) {
        DeallocationRoute::FileBacked { record } => record,
        DeallocationRoute::Fallback => panic!("the address was registered"),
    };
    assert_eq!(record.size, size);
    let mut mapping = Some(mapping);
    for step in teardown_plan() {
        match step {
            TeardownStep::ReleaseMapping => drop(mapping.take()),
            TeardownStep::CloseFile => {}
            TeardownStep::DeleteFile => {
                assert!(mapping.is_none());
                let name = backing_file_name(record.index);
                assert_eq!(directory.files.remove(&name), Some(length));
            }
        }
    }
    allocator.finish_deallocate();
    assert!(!directory.files.contains_key(&created));
    assert!(!allocator.is_file_backed(address));
    assert!(!allocator.in_progress());
}

#[test]
fn page_of_bytes_survives_until_deallocation() {
    let mut allocator = FileAllocator::new();
    let mut directory = Directory { files: HashMap::new() };
    fill_and_read_back(&mut allocator, &mut directory, 4096, 0xAB);
    assert!(directory.files.is_empty());
    assert_eq!(allocator.live_allocations(), 0);
}

#[test]
fn contents_survive_for_small_and_large_regions() {
    let mut allocator = FileAllocator::new();
    let mut directory = Directory { files: HashMap::new() };
    fill_and_read_back(&mut allocator, &mut directory, 1, 0x5A);
    fill_and_read_back(&mut allocator, &mut directory, 4096, 0xAB);
    fill_and_read_back(&mut allocator, &mut directory, 1_048_576, 0xC3);
    assert!(directory.files.is_empty());
    assert_eq!(allocator.live_allocations(), 0);
}
