use kernel_core::allocator::{
    alloc_error_handler, get_heap_stats, init_heap, track_allocation, track_deallocation,
    try_expand_heap, HeapStats, HEAP_MAX_SIZE, HEAP_SIZE, HEAP_START,
};
use kernel_core::memory::{
    ensure_frame_allocator_initialized, init_frame_allocator, BootInfoFrameAllocator,
    FrameAllocatorSlot, MapError, MemoryRegion, MemoryRegionType, MemorySpace, PageEntry,
    KERNEL_DATA_FLAGS, USER_FLAGS,
};

fn region(start: u64, end: u64, region_type: MemoryRegionType) -> MemoryRegion {
    MemoryRegion { start, end, region_type }
}

fn frames(count: u64) -> BootInfoFrameAllocator {
    BootInfoFrameAllocator::init(vec![region(
        0x10_0000,
        0x10_0000 + count * 4096,
        MemoryRegionType::Usable,
    )])
}

#[test]
fn frames_come_from_usable_regions_in_order() {
    let mut allocator = BootInfoFrameAllocator::init(vec![
        region(0x0000, 0x1000, MemoryRegionType::Reserved),
        region(0x1000, 0x3000, MemoryRegionType::Usable),
        region(0x3000, 0x8000, MemoryRegionType::KernelCode),
        region(0x8000, 0x8000, MemoryRegionType::Usable),
        region(0x9000, 0x8000, MemoryRegionType::Usable),
        region(0x10_0000, 0x10_2001, MemoryRegionType::Usable),
        region(0x20_0000, 0x20_1000, MemoryRegionType::Other),
    ]);
    assert_eq!(allocator.allocate_frame(), Some(0x1000));
    assert_eq!(allocator.allocate_frame(), Some(0x2000));
    assert_eq!(allocator.allocate_frame(), Some(0x10_0000));
    assert_eq!(allocator.allocate_frame(), Some(0x10_1000));
    assert_eq!(allocator.allocate_frame(), Some(0x10_2000));
    assert_eq!(allocator.allocate_frame(), None);
    assert_eq!(allocator.allocate_frame(), None);
    assert_eq!(allocator.frame_at(0), Some(0x1000));
    assert_eq!(allocator.frame_at(4), Some(0x10_2000));
    assert_eq!(allocator.frame_at(5), None);
}

#[test]
fn frames_are_aligned_down() {
    let mut allocator = BootInfoFrameAllocator::init(vec![region(
        0x1234,
        0x3000,
        MemoryRegionType::Usable,
    )]);
    // the addresses 0x1234 and 0x2234 lie below the end
    assert_eq!(allocator.allocate_frame(), Some(0x1000));
    assert_eq!(allocator.allocate_frame(), Some(0x2000));
    assert_eq!(allocator.allocate_frame(), None);
}

#[test]
fn no_regions_no_frames() {
    let mut allocator = BootInfoFrameAllocator::init(vec![]);
    assert_eq!(allocator.allocate_frame(), None);
}

#[test]
fn regions_must_end_within_the_physical_addresses() {
    assert!(BootInfoFrameAllocator::valid(&vec![region(
        0,
        0x10_0000_0000_0000,
        MemoryRegionType::Usable
    )]));
    assert!(!BootInfoFrameAllocator::valid(&vec![
        region(0, 0x1000, MemoryRegionType::Usable),
        region(0, 0x10_0000_0000_0001, MemoryRegionType::Reserved),
    ]));
    let mut top = BootInfoFrameAllocator::init(vec![region(
        0x0F_FFFF_FFFF_F000,
        0x10_0000_0000_0000,
        MemoryRegionType::Usable,
    )]);
    assert_eq!(top.allocate_frame(), Some(0x0F_FFFF_FFFF_F000));
}

#[test]
fn new_address_space_has_the_process_layout() {
    let space = MemorySpace::new().unwrap();
    assert_eq!(space.code_start, 0);
    assert_eq!(space.code_size, 1024 * 1024);
    assert_eq!(space.heap_start, 0x4000_0000_0000);
    assert_eq!(space.heap_size, 1024 * 1024);
    assert_eq!(space.entry_point(), 0);
    assert_eq!(space.translate(0), None);
}

#[test]
fn mapping_conflicts_are_refused() {
    let mut space = MemorySpace::new().unwrap();
    assert_eq!(space.map_to(0x5000, 0x9000, USER_FLAGS), Ok(()));
    assert_eq!(space.translate(0x5000), Some(PageEntry { frame: 0x9000, flags: 7 }));
    assert_eq!(space.map_to(0x5000, 0xA000, USER_FLAGS), Err(MapError::MappingFailed));
    assert_eq!(space.translate(0x5000), Some(PageEntry { frame: 0x9000, flags: 7 }));
    assert_eq!(space.unmap(0x5000), Some(PageEntry { frame: 0x9000, flags: 7 }));
    assert_eq!(space.unmap(0x5000), None);
    assert_eq!(space.map_to(0x5000, 0xA000, KERNEL_DATA_FLAGS), Ok(()));
    assert_eq!(
        space.translate(0x5000),
        Some(PageEntry { frame: 0xA000, flags: 0x8000_0000_0000_0003 })
    );
}

#[test]
fn program_is_loaded_page_by_page() {
    let mut frames = frames(8);
    let mut space = MemorySpace::new().unwrap();
    let program = vec![0xCCu8; 4096 * 2 + 10];
    let chunks = space.load_program(&mut frames, &program).unwrap();
    assert_eq!(chunks.len(), 3);
    assert_eq!((chunks[0].page, chunks[0].frame, chunks[0].offset, chunks[0].len), (0, 0x10_0000, 0, 4096));
    assert_eq!((chunks[1].page, chunks[1].frame, chunks[1].offset, chunks[1].len), (0x1000, 0x10_1000, 4096, 4096));
    assert_eq!((chunks[2].page, chunks[2].frame, chunks[2].offset, chunks[2].len), (0x2000, 0x10_2000, 8192, 10));
    assert_eq!(space.translate(0x1000), Some(PageEntry { frame: 0x10_1000, flags: 7 }));
    assert_eq!(space.translate(0x3000), None);
    assert_eq!(frames.allocate_frame(), Some(0x10_3000));
    assert!(space.load_program(&mut frames, &[]).unwrap().is_empty());
    assert_eq!(space.pages.len(), 3);
}

#[test]
fn failed_load_leaves_no_mapping() {
    let mut frames = frames(2);
    let mut space = MemorySpace::new().unwrap();
    space.map_to(0x7000, 0x1, 0).unwrap();
    let program = vec![0u8; 4096 * 3];
    assert_eq!(space.load_program(&mut frames, &program).err(), Some(MapError::FrameAllocationFailed));
    assert_eq!(space.pages.len(), 1);
    assert_eq!(space.translate(0), None);
    assert_eq!(space.translate(0x1000), None);
    assert_eq!(space.translate(0x7000), Some(PageEntry { frame: 0x1, flags: 0 }));
    // the frames that were taken are lost
    assert_eq!(frames.allocate_frame(), None);
}

#[test]
fn load_over_a_mapped_page_fails_and_rolls_back() {
    let mut frames = frames(8);
    let mut space = MemorySpace::new().unwrap();
    space.map_to(0x2000, 0xAAAA_0000, 1).unwrap();
    let program = vec![0u8; 4096 * 4];
    assert_eq!(space.load_program(&mut frames, &program).err(), Some(MapError::MappingFailed));
    assert_eq!(space.pages.len(), 1);
    assert_eq!(space.translate(0), None);
    assert_eq!(space.translate(0x1000), None);
    assert_eq!(space.translate(0x2000), Some(PageEntry { frame: 0xAAAA_0000, flags: 1 }));
    // two frames went to the pages before, one was taken for the page in conflict
    assert_eq!(frames.allocate_frame(), Some(0x10_3000));
}

#[test]
fn run_of_pages_stops_at_the_first_failure() {
    let mut frames = frames(3);
    let mut space = MemorySpace::new().unwrap();
    assert_eq!(space.map_run(&mut frames, 0x10000, 5, 3), (3, Some(MapError::FrameAllocationFailed)));
    assert_eq!(space.pages.len(), 3);
    assert_eq!(space.translate(0x12000), Some(PageEntry { frame: 0x10_2000, flags: 3 }));
    space.unmap_run(0x10000, 2);
    assert_eq!(space.pages.len(), 1);
    assert_eq!(space.translate(0x10000), None);
    assert_eq!(space.translate(0x12000), Some(PageEntry { frame: 0x10_2000, flags: 3 }));
    assert_eq!(space.map_run(&mut frames, 0x20000, 0, 3), (0, None));
}

#[test]
fn heap_is_mapped_at_its_place() {
    let mut frames = frames(64);
    let mut space = MemorySpace::new().unwrap();
    let stats = init_heap(&mut space, &mut frames).unwrap();
    assert_eq!(stats.current_heap_size, 100 * 1024);
    assert_eq!(stats.allocated_bytes, 0);
    assert_eq!(space.pages.len(), 25);
    assert_eq!(HEAP_START, 0x4444_4444_0000);
    assert_eq!(HEAP_SIZE, 102400);
    assert_eq!(
        space.translate(HEAP_START),
        Some(PageEntry { frame: 0x10_0000, flags: KERNEL_DATA_FLAGS })
    );
    assert_eq!(
        space.translate(HEAP_START + 24 * 4096),
        Some(PageEntry { frame: 0x10_0000 + 24 * 4096, flags: KERNEL_DATA_FLAGS })
    );
    assert_eq!(space.translate(HEAP_START + 25 * 4096), None);
}

#[test]
fn heap_without_frames_fails() {
    let mut frames = frames(10);
    let mut space = MemorySpace::new().unwrap();
    assert_eq!(init_heap(&mut space, &mut frames), Err(MapError::FrameAllocationFailed));
    assert_eq!(space.pages.len(), 10);
    let mut frames = self::frames(64);
    let mut space = MemorySpace::new().unwrap();
    space.map_to(HEAP_START + 4096, 0, 0).unwrap();
    assert_eq!(init_heap(&mut space, &mut frames), Err(MapError::MappingFailed));
    assert_eq!(space.pages.len(), 2);
}

#[test]
fn heap_grows_up_to_its_limit() {
    let mut frames = frames(512);
    let mut space = MemorySpace::new().unwrap();
    let mut stats = init_heap(&mut space, &mut frames).unwrap();
    assert_eq!(try_expand_heap(&mut space, &mut frames, &mut stats, 8192), Ok(()));
    assert_eq!(stats.current_heap_size, 100 * 1024 + 8192);
    assert_eq!(space.pages.len(), 27);
    assert!(space.translate(HEAP_START + 26 * 4096).is_some());
    assert_eq!(try_expand_heap(&mut space, &mut frames, &mut stats, 0), Ok(()));
    assert_eq!(space.pages.len(), 27);
    let rest = HEAP_MAX_SIZE as usize - stats.current_heap_size;
    assert_eq!(
        try_expand_heap(&mut space, &mut frames, &mut stats, rest + 1),
        Err(MapError::FrameAllocationFailed)
    );
    assert_eq!(space.pages.len(), 27);
    assert_eq!(try_expand_heap(&mut space, &mut frames, &mut stats, rest), Ok(()));
    assert_eq!(stats.current_heap_size, 1024 * 1024);
    assert_eq!(space.pages.len(), 256);
    assert_eq!(
        try_expand_heap(&mut space, &mut frames, &mut stats, 1),
        Err(MapError::FrameAllocationFailed)
    );
}

#[test]
fn heap_growth_into_a_mapped_page_fails() {
    let mut frames = frames(512);
    let mut space = MemorySpace::new().unwrap();
    let mut stats = init_heap(&mut space, &mut frames).unwrap();
    // the heap then ends within a page, which the next growth finds mapped
    assert_eq!(try_expand_heap(&mut space, &mut frames, &mut stats, 100), Ok(()));
    assert_eq!(
        try_expand_heap(&mut space, &mut frames, &mut stats, 100),
        Err(MapError::MappingFailed)
    );
    assert_eq!(stats.current_heap_size, 100 * 1024 + 100);
}

#[test]
fn allocated_bytes_never_exceed_the_peak() {
    let mut stats = HeapStats::new(1000);
    let sizes = [10usize, 200, 0, 5, 999, usize::MAX, 1];
    for (step, size) in sizes.iter().enumerate() {
        track_allocation(&mut stats, *size);
        assert!(stats.allocated_bytes <= stats.peak_memory_usage);
        if step % 2 == 1 {
            track_deallocation(&mut stats, *size / 2);
            assert!(stats.allocated_bytes <= stats.peak_memory_usage);
        }
    }
    track_deallocation(&mut stats, usize::MAX);
    assert_eq!(stats.allocated_bytes, 0);
    assert_eq!(stats.peak_memory_usage, usize::MAX);
}

#[test]
fn heap_statistics_count() {
    let mut stats = HeapStats::new(4096);
    track_allocation(&mut stats, 100);
    track_allocation(&mut stats, 50);
    assert_eq!(
        get_heap_stats(&stats),
        HeapStats {
            allocated_bytes: 150,
            allocation_count: 2,
            peak_memory_usage: 150,
            current_heap_size: 4096
        }
    );
    track_deallocation(&mut stats, 100);
    assert_eq!(stats.allocated_bytes, 50);
    assert_eq!(stats.peak_memory_usage, 150);
    assert_eq!(stats.allocation_count, 2);
    track_allocation(&mut stats, 20);
    assert_eq!(stats.allocated_bytes, 70);
    assert_eq!(stats.peak_memory_usage, 150);
    track_deallocation(&mut stats, 1000);
    assert_eq!(stats.allocated_bytes, 0);
    let failure = alloc_error_handler(&stats, 64, 8);
    assert_eq!(failure.size, 64);
    assert_eq!(failure.align, 8);
    assert_eq!(failure.stats, stats);
}

#[test]
fn the_frame_allocator_is_missing_until_it_is_set_up() {
    let mut slot = FrameAllocatorSlot::new();
    assert_eq!(ensure_frame_allocator_initialized(&slot), Err("Frame allocator not initialized"));
    init_frame_allocator(&mut slot, vec![region(0x1000, 0x3000, MemoryRegionType::Usable)]);
    assert_eq!(ensure_frame_allocator_initialized(&slot), Ok(()));
    let allocator = slot.allocator.as_mut().expect("set up");
    assert_eq!(allocator.allocate_frame(), Some(0x1000));
    assert_eq!(allocator.allocate_frame(), Some(0x2000));
    assert_eq!(allocator.allocate_frame(), None);
    assert_eq!(ensure_frame_allocator_initialized(&slot), Ok(()));
}

#[test]
fn no_frame_is_handed_out_twice() {
    let mut allocator = BootInfoFrameAllocator::init(vec![
        region(0x8000, 0xB000, MemoryRegionType::Usable),
        region(0x0000, 0x2000, MemoryRegionType::Usable),
        region(0x2000, 0x8000, MemoryRegionType::Reserved),
        region(0x10_0000, 0x10_4800, MemoryRegionType::Usable),
    ]);
    let mut seen: Vec<u64> = Vec::new();
    while let Some(frame) = allocator.allocate_frame() {
        assert!(!seen.contains(&frame));
        assert_eq!(frame % 4096, 0);
        seen.push(frame);
    }
    assert_eq!(
        seen,
        vec![0x8000, 0x9000, 0xA000, 0x0000, 0x1000, 0x10_0000, 0x10_1000, 0x10_2000, 0x10_3000, 0x10_4000]
    );
    assert_eq!(allocator.allocate_frame(), None);
}
