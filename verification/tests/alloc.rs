use laranja_kernel::usb::simple_alloc::BOUNDARY;
use laranja_kernel::usb::Pool;
use laranja_kernel::usb::Region;
use laranja_kernel::usb::SimpleAlloc;

const BASE: usize = 0x10_0000;

#[test]
fn fresh_allocator_has_no_pool() {
    let alloc: SimpleAlloc<8192> = SimpleAlloc::new();
    assert_eq!(alloc.pool(), None);
}

#[test]
fn pool_is_captured_on_first_use_only() {
    let mut alloc: SimpleAlloc<8192> = SimpleAlloc::new();
    alloc.do_initialize(BASE);
    assert_eq!(
        alloc.pool(),
        Some(Pool { base: BASE, cursor: BASE, end: BASE + 8192, boundary: 4096 })
    );
    alloc.do_initialize(BASE + 0x1000);
    assert_eq!(
        alloc.pool(),
        Some(Pool { base: BASE, cursor: BASE, end: BASE + 8192, boundary: 4096 })
    );
}

#[test]
fn roundup_gives_next_multiple() {
    assert_eq!(SimpleAlloc::<0>::roundup(0, 16), 0);
    assert_eq!(SimpleAlloc::<0>::roundup(1, 16), 16);
    assert_eq!(SimpleAlloc::<0>::roundup(16, 16), 16);
    assert_eq!(SimpleAlloc::<0>::roundup(17, 16), 32);
    assert_eq!(SimpleAlloc::<0>::roundup(4000, 4096), 4096);
    assert_eq!(SimpleAlloc::<0>::roundup(4097, 4096), 8192);
    assert_eq!(SimpleAlloc::<0>::roundup(5, 1), 5);
    assert_eq!(SimpleAlloc::<0>::roundup(10, 3), 12);
}

#[test]
fn roundup_may_pass_the_last_address() {
    assert_eq!(SimpleAlloc::<0>::roundup(usize::MAX, 16), usize::MAX as u128 + 1);
    assert_eq!(SimpleAlloc::<0>::roundup(usize::MAX - 15, 16), usize::MAX as u128 - 15);
}

#[test]
fn second_allocation_skips_to_the_boundary() {
    let mut alloc: SimpleAlloc<8192> = SimpleAlloc::new();
    assert_eq!(alloc.alloc_mem(BASE, 4000, 16), Some(Region { start: BASE, size: 4000 }));
    assert_eq!(alloc.pool().unwrap().cursor, BASE + 4000);
    assert_eq!(alloc.alloc_mem(BASE, 200, 16), Some(Region { start: BASE + 4096, size: 200 }));
    assert_eq!(alloc.pool().unwrap().cursor, BASE + 4296);
}

#[test]
fn allocation_that_fits_before_the_boundary_stays_there() {
    let mut alloc: SimpleAlloc<8192> = SimpleAlloc::new();
    assert_eq!(alloc.alloc_mem(BASE, 4000, 16), Some(Region { start: BASE, size: 4000 }));
    assert_eq!(alloc.alloc_mem(BASE, 96, 16), Some(Region { start: BASE + 4000, size: 96 }));
    assert_eq!(alloc.alloc_mem(BASE, 1, 1), Some(Region { start: BASE + 4096, size: 1 }));
}

#[test]
fn allocation_is_aligned() {
    let mut alloc: SimpleAlloc<8192> = SimpleAlloc::new();
    assert_eq!(alloc.alloc_mem(BASE, 3, 1), Some(Region { start: BASE, size: 3 }));
    assert_eq!(alloc.alloc_mem(BASE, 8, 64), Some(Region { start: BASE + 64, size: 8 }));
    assert_eq!(alloc.alloc_mem(BASE, 1, 4), Some(Region { start: BASE + 72, size: 1 }));
    assert_eq!(alloc.alloc_mem(BASE, 4, 4), Some(Region { start: BASE + 76, size: 4 }));
}

#[test]
fn allocation_larger_than_the_pool_fails() {
    let mut alloc: SimpleAlloc<8192> = SimpleAlloc::new();
    assert_eq!(alloc.alloc_mem(BASE, 8193, 16), None);
    assert_eq!(
        alloc.pool(),
        Some(Pool { base: BASE, cursor: BASE, end: BASE + 8192, boundary: 4096 })
    );
    assert_eq!(alloc.alloc_mem(BASE, usize::MAX, 16), None);
    assert_eq!(alloc.alloc_mem(BASE, usize::MAX, usize::MAX), None);
    assert_eq!(
        alloc.pool(),
        Some(Pool { base: BASE, cursor: BASE, end: BASE + 8192, boundary: 4096 })
    );
}

#[test]
fn allocation_larger_than_what_is_left_fails() {
    let mut alloc: SimpleAlloc<8192> = SimpleAlloc::new();
    assert_eq!(alloc.alloc_mem(BASE, 4096, 16), Some(Region { start: BASE, size: 4096 }));
    assert_eq!(alloc.alloc_mem(BASE, 4097, 16), None);
    assert_eq!(alloc.pool().unwrap().cursor, BASE + 4096);
    assert_eq!(alloc.alloc_mem(BASE, 4096, 16), Some(Region { start: BASE + 4096, size: 4096 }));
    assert_eq!(alloc.alloc_mem(BASE, 1, 1), None);
    assert_eq!(alloc.alloc_mem(BASE, 0, 1), Some(Region { start: BASE + 8192, size: 0 }));
}

#[test]
fn allocation_lost_to_the_boundary_skip_fails() {
    let mut alloc: SimpleAlloc<8192> = SimpleAlloc::new();
    assert_eq!(alloc.alloc_mem(BASE, 4000, 4), Some(Region { start: BASE, size: 4000 }));
    assert_eq!(alloc.alloc_mem(BASE, 4097, 4), None);
    assert_eq!(alloc.pool().unwrap().cursor, BASE + 4000);
    assert_eq!(alloc.alloc_mem(BASE, 4096, 4), Some(Region { start: BASE + 4096, size: 4096 }));
}

#[test]
fn whole_pool_can_be_taken_at_once() {
    let mut alloc: SimpleAlloc<8192> = SimpleAlloc::new();
    assert_eq!(alloc.alloc_mem(BASE, 8192, 4096), Some(Region { start: BASE, size: 8192 }));
    assert_eq!(
        alloc.pool(),
        Some(Pool { base: BASE, cursor: BASE + 8192, end: BASE + 8192, boundary: 4096 })
    );
}

#[test]
fn alignment_of_zero_fails() {
    let mut alloc: SimpleAlloc<8192> = SimpleAlloc::new();
    assert_eq!(alloc.alloc_mem(BASE, 16, 0), None);
    assert_eq!(
        alloc.pool(),
        Some(Pool { base: BASE, cursor: BASE, end: BASE + 8192, boundary: 4096 })
    );
}

#[test]
fn later_base_is_ignored() {
    let mut alloc: SimpleAlloc<8192> = SimpleAlloc::new();
    assert_eq!(alloc.alloc_mem(BASE, 16, 16), Some(Region { start: BASE, size: 16 }));
    assert_eq!(alloc.alloc_mem(0x90_0000, 16, 16), Some(Region { start: BASE + 16, size: 16 }));
}

#[test]
fn small_ranges_never_cross_a_boundary() {
    let mut alloc: SimpleAlloc<65536> = SimpleAlloc::new();
    let mut cursor = BASE;
    for size in [1usize, 100, 4000, 33, 4096, 2049, 2048, 2047, 7, 4095, 640] {
        let region = alloc.alloc_mem(BASE, size, 8).unwrap();
        assert_eq!(region.size, size);
        assert!(region.start >= cursor);
        assert_eq!(region.start % 8, 0);
        assert_eq!(region.start / BOUNDARY, (region.start + size - 1) / BOUNDARY);
        cursor = region.start + size;
        assert_eq!(alloc.pool().unwrap().cursor, cursor);
    }
}

#[test]
fn slice_uses_size_and_alignment_of_the_type() {
    let mut alloc: SimpleAlloc<8192> = SimpleAlloc::new();
    assert_eq!(alloc.alloc_slice::<u8>(BASE, 3), Some(Region { start: BASE, size: 3 }));
    assert_eq!(alloc.alloc_slice::<u64>(BASE, 4), Some(Region { start: BASE + 8, size: 32 }));
    assert_eq!(alloc.alloc_slice::<u16>(BASE, 1), Some(Region { start: BASE + 40, size: 2 }));
    assert_eq!(alloc.alloc_slice::<[u32; 8]>(BASE, 2), Some(Region { start: BASE + 44, size: 64 }));
}

#[test]
fn slice_too_long_fails() {
    let mut alloc: SimpleAlloc<8192> = SimpleAlloc::new();
    assert_eq!(alloc.alloc_slice::<u64>(BASE, 1025), None);
    assert_eq!(alloc.alloc_slice::<u64>(BASE, usize::MAX), None);
    assert_eq!(alloc.alloc_slice::<u64>(BASE, 1024), Some(Region { start: BASE, size: 8192 }));
}

#[test]
fn boundary_can_be_chosen() {
    let mut alloc: SimpleAlloc<1024> = SimpleAlloc::with_boundary(64);
    assert_eq!(alloc.pool(), None);
    assert_eq!(alloc.alloc_mem(BASE, 40, 8), Some(Region { start: BASE, size: 40 }));
    assert_eq!(alloc.alloc_mem(BASE, 30, 8), Some(Region { start: BASE + 64, size: 30 }));
    assert_eq!(alloc.alloc_mem(BASE, 30, 8), Some(Region { start: BASE + 96, size: 30 }));
    assert_eq!(alloc.alloc_mem(BASE, 100, 8), Some(Region { start: BASE + 128, size: 100 }));
    assert_eq!(
        alloc.pool(),
        Some(Pool { base: BASE, cursor: BASE + 228, end: BASE + 1024, boundary: 64 })
    );
}

#[test]
fn boundary_of_one_never_moves_a_range() {
    let mut alloc: SimpleAlloc<64> = SimpleAlloc::with_boundary(1);
    assert_eq!(alloc.alloc_mem(BASE, 3, 1), Some(Region { start: BASE, size: 3 }));
    assert_eq!(alloc.alloc_mem(BASE, 5, 1), Some(Region { start: BASE + 3, size: 5 }));
    assert_eq!(alloc.alloc_mem(BASE, 5, 4), Some(Region { start: BASE + 8, size: 5 }));
}

#[test]
fn alignment_above_the_boundary_is_kept() {
    let mut alloc: SimpleAlloc<8192> = SimpleAlloc::new();
    assert_eq!(alloc.alloc_mem(0x1000, 16, 8192), Some(Region { start: 0x2000, size: 16 }));
    assert_eq!(alloc.alloc_mem(0x1000, 16, 8192), None);
    assert_eq!(alloc.alloc_mem(0x1000, 16, 4096), None);
    assert_eq!(alloc.alloc_mem(0x1000, 16, 16), Some(Region { start: 0x2010, size: 16 }));
    let mut alloc: SimpleAlloc<65536> = SimpleAlloc::new();
    assert_eq!(alloc.alloc_mem(BASE, 100, 16), Some(Region { start: BASE, size: 100 }));
    assert_eq!(alloc.alloc_mem(BASE, 8192, 8192), Some(Region { start: BASE + 8192, size: 8192 }));
    assert_eq!(alloc.alloc_mem(BASE, 1, 16384), Some(Region { start: BASE + 16384, size: 1 }));
}

#[test]
fn ranges_are_aligned_to_any_power_of_two() {
    let mut alloc: SimpleAlloc<1048576> = SimpleAlloc::new();
    let mut cursor = BASE;
    let requests = [
        (3usize, 0u32),
        (5, 3),
        (4000, 4),
        (200, 4),
        (1, 13),
        (9, 1),
        (4096, 12),
        (70, 14),
        (4097, 6),
    ];
    for (size, log) in requests {
        let alignment = 1usize << log;
        let region = alloc.alloc_mem(BASE, size, alignment).unwrap();
        assert_eq!(region.start % alignment, 0);
        assert!(region.start >= cursor);
        if size <= BOUNDARY {
            assert_eq!(region.start / BOUNDARY, (region.start + size - 1) / BOUNDARY);
        }
        cursor = region.start + size;
        assert_eq!(alloc.pool().unwrap().cursor, cursor);
    }
}

#[test]
fn small_range_stays_in_one_block_whatever_the_alignment() {
    let mut alloc: SimpleAlloc<65536> = SimpleAlloc::new();
    assert_eq!(alloc.alloc_mem(BASE, 100, 1), Some(Region { start: BASE, size: 100 }));
    assert_eq!(alloc.alloc_mem(BASE, 4000, 5000), Some(Region { start: BASE + 4096, size: 4000 }));
    assert_eq!(alloc.alloc_mem(BASE, 4000, 7000), Some(Region { start: BASE + 12288, size: 4000 }));
}
