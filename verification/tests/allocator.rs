use wasabi::allocator::{FirstFitAllocator, MemoryRegion, MemoryRegionKind, round_up_to_nearest_pow2, HEADER_SIZE};

fn region(start: u64, pages: u64, kind: MemoryRegionKind) -> MemoryRegion {
    MemoryRegion { physical_start: start, number_of_pages: pages, kind }
}

fn setup(start: u64, pages: u64) -> FirstFitAllocator {
    let mut allocator = FirstFitAllocator::new();
    let map = vec![region(start, pages, MemoryRegionKind::UsableRam)];
    allocator.init_with_mmap(&map);
    allocator
}

fn overlaps(a: (usize, usize), b: (usize, usize)) -> bool {
    !(a.0 + a.1 <= b.0 || b.0 + b.1 <= a.0)
}

#[test]
fn round_up_to_nearest_pow2_test() {
    assert_eq!(round_up_to_nearest_pow2(0), Err("Out of range"));
    assert_eq!(round_up_to_nearest_pow2(1), Ok(1));
    assert_eq!(round_up_to_nearest_pow2(2), Ok(2));
    assert_eq!(round_up_to_nearest_pow2(3), Ok(4));
    assert_eq!(round_up_to_nearest_pow2(4), Ok(4));
    assert_eq!(round_up_to_nearest_pow2(5), Ok(8));
    assert_eq!(round_up_to_nearest_pow2(6), Ok(8));
    assert_eq!(round_up_to_nearest_pow2(7), Ok(8));
    assert_eq!(round_up_to_nearest_pow2(8), Ok(8));
    assert_eq!(round_up_to_nearest_pow2(9), Ok(16));
}

#[test]
fn round_up_to_nearest_pow2_large_values() {
    let top: usize = 1usize << 63;
    assert_eq!(round_up_to_nearest_pow2(top), Ok(top));
    assert_eq!(round_up_to_nearest_pow2(top - 5), Ok(top));
    assert_eq!(round_up_to_nearest_pow2(top + 1), Err("Out of range"));
    assert_eq!(round_up_to_nearest_pow2(usize::MAX), Err("Out of range"));
}

#[test]
fn malloc_align() {
    let mut allocator = setup(0x100_0000, 16384);
    for align in [1usize, 2, 4, 8, 16, 32, 4096] {
        for _ in 0..100 {
            let a = allocator.alloc_with_options(1234, align);
            let a = a.expect("allocation failed");
            assert!(a != 0);
            assert!(a % align == 0);
        }
    }
}

#[test]
fn allocated_objects_have_no_overlap() {
    let allocations: Vec<(usize, usize)> = vec![
        (128, 128),
        (32, 32),
        (8, 8),
        (16, 16),
        (6000, 64),
        (4, 4),
        (2, 2),
        (600000, 64),
        (64, 64),
        (1, 1),
        (6000, 64),
        (6000, 64),
        (6000, 64),
        (6000, 64),
        (6000, 64),
        (6000, 64),
        (3, 64),
        (3, 64),
        (3, 64),
        (3, 64),
        (3, 64),
        (3, 64),
        (3, 64),
        (3, 64),
        (3, 64),
        (3, 64),
        (6000, 64),
        (6000, 64),
        (600000, 64),
        (6000, 64),
        (60000, 64),
        (60000, 64),
        (60000, 64),
        (60000, 64),
    ];
    let mut allocator = setup(0x100_0000, 16384);
    let mut pointers = vec![0usize; allocations.len()];
    for (i, &(size, align)) in allocations.iter().enumerate() {
        let a = allocator.alloc_with_options(size, align).expect("allocation failed");
        assert!(a != 0);
        pointers[i] = a;
    }
    // no two live allocations overlap
    for i in 0..allocations.len() {
        for j in 0..i {
            assert!(!overlaps((pointers[i], allocations[i].0), (pointers[j], allocations[j].0)));
        }
    }
    // free every other allocation
    for i in (0..allocations.len()).step_by(2) {
        allocator.dealloc(pointers[i]);
    }
    // allocate them again
    for i in (0..allocations.len()).step_by(2) {
        let (size, align) = allocations[i];
        let a = allocator.alloc_with_options(size, align).expect("allocation failed");
        assert!(a != 0);
        pointers[i] = a;
    }
    // still no two live allocations overlap
    for i in 0..allocations.len() {
        for j in 0..i {
            assert!(!overlaps((pointers[i], allocations[i].0), (pointers[j], allocations[j].0)));
        }
    }
}

#[test]
fn zero_size_allocation_proceeds() {
    let mut allocator = setup(0x10_0000, 256);
    let a = allocator.alloc_with_options(0, 1).expect("zero-size allocation failed");
    assert!(a != 0);
    assert!(a % HEADER_SIZE == 0);
}

#[test]
fn zero_start_one_page_region_is_discarded() {
    let mut allocator = FirstFitAllocator::new();
    let map = vec![region(0, 1, MemoryRegionKind::UsableRam)];
    allocator.init_with_mmap(&map);
    assert_eq!(allocator.alloc_with_options(1, 1), None);
}

#[test]
fn zero_start_two_page_region_is_discarded() {
    // after the null-page skip one page remains, which does not exceed one
    // page and is therefore discarded
    let mut allocator = FirstFitAllocator::new();
    let map = vec![region(0, 2, MemoryRegionKind::UsableRam)];
    allocator.init_with_mmap(&map);
    assert_eq!(allocator.alloc_with_options(1, 1), None);
}

#[test]
fn zero_start_three_page_region_is_kept() {
    let mut allocator = FirstFitAllocator::new();
    let map = vec![region(0, 3, MemoryRegionKind::UsableRam)];
    allocator.init_with_mmap(&map);
    let a = allocator.alloc_with_options(64, 64).expect("allocation failed");
    // the first page is reserved: nothing below one page is handed out
    assert!(a >= 4096);
}

#[test]
fn non_usable_regions_are_ignored() {
    let mut allocator = FirstFitAllocator::new();
    let map = vec![region(0x10_0000, 256, MemoryRegionKind::Reserved)];
    allocator.init_with_mmap(&map);
    assert_eq!(allocator.alloc_with_options(1, 1), None);
}

#[test]
fn exhaustion_returns_none() {
    let mut allocator = setup(0x10_0000, 2);
    assert_eq!(allocator.alloc_with_options(64 * 1024, 1), None);
}

#[test]
fn end_to_end_scenario() {
    // one usable 1 MiB region
    let mut allocator = setup(0x10_0000, 256);
    let a1 = allocator.alloc_with_options(128, 128).expect("first allocation failed");
    assert_eq!(a1, 0x1F_FF80);
    assert!(a1 % 128 == 0);
    let a2 = allocator.alloc_with_options(6000, 64).expect("second allocation failed");
    assert_eq!(a2, 0x1F_DF40);
    assert!(a2 % 64 == 0);
    allocator.dealloc(a1);
    let a3 = allocator.alloc_with_options(64, 64).expect("third allocation failed");
    assert!(a3 % 64 == 0);
    assert!(a3 != 0);
    // the new allocation does not overlap the still-live 6000-byte one
    // (6000 rounds up to 8192)
    assert!(!overlaps((a3, 64), (a2, 8192)));
}

#[test]
fn freed_block_bytes_are_reused() {
    // four pages; carve two allocations, free the large one, and watch a
    // later allocation land inside the freed block's byte range
    let mut allocator = setup(0x10_0000, 4);
    let a1 = allocator.alloc_with_options(8192, 32).expect("first allocation failed");
    assert_eq!(a1, 0x10_2000);
    let a2 = allocator.alloc_with_options(4096, 32).expect("second allocation failed");
    assert_eq!(a2, 0x10_0FE0);
    // nothing left for another four pages
    assert_eq!(allocator.alloc_with_options(4096, 32), None);
    allocator.dealloc(a1);
    let a3 = allocator.alloc_with_options(4096, 32).expect("reuse allocation failed");
    assert_eq!(a3, 0x10_3000);
    // the bytes come out of the freed block's span
    assert!(a1 <= a3 && a3 + 4096 <= a1 + 8192);
    assert!(!overlaps((a3, 4096), (a2, 4096)));
}

#[test]
fn repeated_dealloc_is_idempotent() {
    // two allocators run the same operations; one frees the same address
    // twice. Their behaviour afterwards is identical.
    let mut once = setup(0x10_0000, 4);
    let mut twice = setup(0x10_0000, 4);
    let a1 = once.alloc_with_options(8192, 32).expect("allocation failed");
    let b1 = twice.alloc_with_options(8192, 32).expect("allocation failed");
    assert_eq!(a1, b1);
    once.dealloc(a1);
    twice.dealloc(b1);
    twice.dealloc(b1);
    let a2 = once.alloc_with_options(4096, 32).expect("allocation failed");
    let b2 = twice.alloc_with_options(4096, 32).expect("allocation failed");
    assert_eq!(a2, b2);
}

#[test]
fn add_free_from_descriptor_prepends_head() {
    // two usable regions: the most recently added one becomes the chain
    // head, so a first-fit allocation is served from it
    let mut allocator = FirstFitAllocator::new();
    let first = region(0x10_0000, 2, MemoryRegionKind::UsableRam);
    let second = region(0x20_0000, 2, MemoryRegionKind::UsableRam);
    allocator.add_free_from_descriptor(&first);
    allocator.add_free_from_descriptor(&second);
    let a = allocator.alloc_with_options(64, 1).expect("allocation failed");
    assert!(0x20_0000 <= a && a < 0x20_2000);
}
