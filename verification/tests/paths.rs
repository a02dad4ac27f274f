use goofy_ahh_alloc::path::{backing_file_name, PathGenerator};
use std::collections::HashSet;

#[test]
fn first_name_is_all_zeros() {
    assert_eq!(backing_file_name(0), "goofy-alloc_0000000000.mem");
}

#[test]
fn name_pads_to_ten_digits() {
    assert_eq!(backing_file_name(7), "goofy-alloc_0000000007.mem");
    assert_eq!(backing_file_name(42), "goofy-alloc_0000000042.mem");
    assert_eq!(backing_file_name(1_000_000), "goofy-alloc_0001000000.mem");
    assert_eq!(backing_file_name(9_999_999_999), "goofy-alloc_9999999999.mem");
}

#[test]
fn name_grows_beyond_ten_digits() {
    assert_eq!(backing_file_name(10_000_000_000), "goofy-alloc_10000000000.mem");
    assert_eq!(backing_file_name(u64::MAX), "goofy-alloc_18446744073709551615.mem");
}

#[test]
fn name_agrees_with_std_formatting() {
    let samples: [u64; 12] = [
        0,
        1,
        9,
        10,
        99,
        100,
        123_456_789,
        999_999_999,
        1_000_000_000,
        4_294_967_296,
        10_000_000_001,
        u64::MAX - 1,
    ];
    for index in samples {
        assert_eq!(backing_file_name(index), format!("goofy-alloc_{:010}.mem", index));
    }
}

#[test]
fn generator_counts_from_zero() {
    let mut generator = PathGenerator::new();
    assert_eq!(generator.next_index(), 0);
    assert_eq!(generator.next_index(), 1);
    assert_eq!(generator.next_path(), "goofy-alloc_0000000002.mem");
    assert_eq!(generator.next_index(), 3);
}

#[test]
fn generator_never_repeats_a_name() {
    let mut generator = PathGenerator::new();
    let mut seen: HashSet<String> = HashSet::new();
    for _ in 0..5000 {
        assert!(seen.insert(generator.next_path()));
    }
    assert_eq!(seen.len(), 5000);
}

#[test]
fn different_indices_give_different_names() {
    for a in 0u64..60 {
        for b in 0u64..60 {
            assert_eq!(backing_file_name(a) == backing_file_name(b), a == b);
        }
    }
    assert_ne!(backing_file_name(1), backing_file_name(10));
    assert_ne!(backing_file_name(10_000_000_000), backing_file_name(1_000_000_000));
}

#[test]
fn generator_stops_before_the_largest_number() {
    let mut generator = PathGenerator::starting_at(u64::MAX - 2);
    assert!(!generator.exhausted());
    assert_eq!(generator.next_index(), u64::MAX - 2);
    assert_eq!(
        generator.try_next_path(),
        Some(String::from("goofy-alloc_18446744073709551614.mem"))
    );
    assert!(generator.exhausted());
    assert_eq!(generator.try_next_path(), None);
    assert_eq!(generator.try_next_path(), None);
    assert!(generator.exhausted());
}

#[test]
fn generator_counter_only_grows() {
    let mut generator = PathGenerator::starting_at(1_000);
    let mut last = generator.next_index();
    for _ in 0..1_000 {
        let index = generator.next_index();
        assert!(index > last);
        last = index;
    }
}
