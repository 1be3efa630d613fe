use finite_difference::allocator::{MemoryBlockMap, MemoryRegion, MemoryRegionPointer};

#[test]
fn regions_fill_the_first_vacant_slot() {
    let mut block = MemoryBlockMap::new(1000);
    let a = block.fit_region(MemoryRegion { offset: 0, size: 10 });
    let b = block.fit_region(MemoryRegion { offset: 20, size: 10 });
    assert_eq!((a, b), (0, 1));
    block.regions[0] = None;
    let c = block.fit_region(MemoryRegion { offset: 40, size: 10 });
    assert_eq!(c, 0);
    assert_eq!(block.regions[0], Some(MemoryRegion { offset: 40, size: 10 }));
    assert_eq!(block.regions[1], Some(MemoryRegion { offset: 20, size: 10 }));
}

#[test]
fn empty_block_accepts_at_offset_zero() {
    let mut block = MemoryBlockMap::new(1000);
    let idx = block.try_fit_region(100, 64).unwrap();
    assert_eq!(block.regions[idx], Some(MemoryRegion { offset: 0, size: 100 }));
}

#[test]
fn placement_respects_alignment_and_existing_regions() {
    let mut block = MemoryBlockMap::new(1000);
    block.try_fit_region(100, 64).unwrap();
    let idx = block.try_fit_region(50, 64).unwrap();
    // next aligned offset after byte 100 is 128
    assert_eq!(block.regions[idx], Some(MemoryRegion { offset: 128, size: 50 }));
}

#[test]
fn oversized_requests_are_refused() {
    let mut block = MemoryBlockMap::new(10);
    assert_eq!(block.try_fit_region(100, 1), None);
    assert!(block.regions.is_empty());
}

#[test]
fn region_pointers_carry_block_and_slot() {
    let p = MemoryRegionPointer { block: 2, region: 5 };
    assert_eq!(p, MemoryRegionPointer { block: 2, region: 5 });
    assert_ne!(p.block, p.region);
}
