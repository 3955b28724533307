//! Tests for the region map, the frame allocator, the page mapper, and heap
//! bring-up.

use kewve_os::memory::init_heap;
use kewve_os::memory::init_memory_management;
use kewve_os::memory::test_heap_allocation;
use kewve_os::memory::get_memory_stats;
use kewve_os::memory::BootInfoFrameAllocator;
use kewve_os::memory::MemoryError;
use kewve_os::memory::MemoryMap;
use kewve_os::memory::MemoryRegion;
use kewve_os::memory::PageMapper;
use kewve_os::memory::HEAP_SIZE;
use kewve_os::memory::HEAP_START;
use kewve_os::memory::PAGE_SIZE;
use kewve_os::memory::PAGE_PRESENT;
use kewve_os::memory::PAGE_WRITABLE;
use kewve_os::memory::PlatformMemoryManager;
use kewve_os::memory::X86MemoryManager;

fn region(start: u64, end: u64, usable: bool) -> MemoryRegion {
    MemoryRegion { start, end, usable }
}

#[test]
fn frames_are_distinct_usable_and_exhaustible() {
    // Two usable regions around a reserved one: 3 + 2 usable frames.
    let map = MemoryMap::new(vec![
        region(0x1000, 0x4000, true),
        region(0x4000, 0x6000, false),
        region(0x6000, 0x8000, true),
    ])
    .unwrap();
    let mut allocator = BootInfoFrameAllocator::init(map);

    let mut frames = Vec::new();
    while let Some(f) = allocator.allocate_frame() {
        frames.push(f);
    }
    assert_eq!(frames, vec![0x1000, 0x2000, 0x3000, 0x6000, 0x7000]);

    // No two frames repeat, each is aligned and inside a usable region.
    for (i, f) in frames.iter().enumerate() {
        assert_eq!(f % PAGE_SIZE, 0);
        assert!((0x1000 <= *f && *f < 0x4000) || (0x6000 <= *f && *f < 0x8000));
        for g in frames.iter().skip(i + 1) {
            assert_ne!(f, g);
        }
    }

    // The call after exhaustion reports out-of-memory, and keeps doing so.
    assert_eq!(allocator.allocate_frame(), None);
    assert_eq!(allocator.allocate_frame(), None);
}

#[test]
fn malformed_region_maps_are_rejected() {
    // Inverted region.
    assert!(matches!(
        MemoryMap::new(vec![region(0x2000, 0x1000, true)]),
        Err(MemoryError::InvalidPhysicalAddress(_))
    ));
    // Unaligned start.
    assert!(matches!(
        MemoryMap::new(vec![region(0x1234, 0x2000, true)]),
        Err(MemoryError::InvalidPhysicalAddress(_))
    ));
    // Unaligned end.
    assert!(matches!(
        MemoryMap::new(vec![region(0x1000, 0x2345, true)]),
        Err(MemoryError::InvalidPhysicalAddress(_))
    ));
    // Out of order / overlapping.
    assert!(matches!(
        MemoryMap::new(vec![region(0x4000, 0x6000, true), region(0x1000, 0x5000, false)]),
        Err(MemoryError::InvalidPhysicalAddress(_))
    ));
    // The empty map and a well-formed map are fine.
    assert!(MemoryMap::new(vec![]).is_ok());
    assert!(MemoryMap::new(vec![region(0x1000, 0x2000, false)]).is_ok());
}

#[test]
fn mapper_refuses_remapping() {
    let mut mapper = PageMapper::new();
    assert!(!mapper.is_mapped(0x5000));
    assert!(mapper.map_to(0x5000, 0x1000, PAGE_PRESENT | PAGE_WRITABLE).is_ok());
    assert!(mapper.is_mapped(0x5000));
    assert_eq!(
        mapper.map_to(0x5000, 0x2000, PAGE_PRESENT | PAGE_WRITABLE),
        Err(MemoryError::MappingFailed)
    );
    let m = mapper.translate(0x5000).unwrap();
    assert_eq!(m.frame, 0x1000);
    assert_eq!(m.flags, PAGE_PRESENT | PAGE_WRITABLE);
    assert!(mapper.translate(0x6000).is_none());
}

#[test]
fn heap_bring_up_succeeds_with_enough_memory() {
    // Exactly HEAP_SIZE of usable memory, plus a reserved region.
    let map = MemoryMap::new(vec![
        region(0x10_0000, 0x10_0000 + HEAP_SIZE, true),
        region(0x20_0000, 0x20_1000, false),
    ])
    .unwrap();
    let mut mapper = PageMapper::new();
    assert_eq!(init_memory_management(map, &mut mapper), Ok(()));

    // Every heap page is mapped, present and writable, to a distinct frame.
    let pages = HEAP_SIZE / PAGE_SIZE;
    let mut seen = Vec::new();
    for i in 0..pages {
        let page = HEAP_START + i * PAGE_SIZE;
        let m = mapper.translate(page).expect("heap page not mapped");
        assert_eq!(m.page, page);
        assert_eq!(m.flags, PAGE_PRESENT | PAGE_WRITABLE);
        assert!(0x10_0000 <= m.frame && m.frame < 0x10_0000 + HEAP_SIZE);
        assert!(!seen.contains(&m.frame));
        seen.push(m.frame);
    }
}

#[test]
fn heap_bring_up_fails_cleanly_without_enough_memory() {
    // One page short of HEAP_SIZE.
    let map = MemoryMap::new(vec![region(0x10_0000, 0x10_0000 + HEAP_SIZE - PAGE_SIZE, true)])
        .unwrap();
    let mut mapper = PageMapper::new();
    assert_eq!(init_memory_management(map, &mut mapper), Err(MemoryError::OutOfMemory));
}

#[test]
fn heap_bring_up_fails_on_premapped_page() {
    let map = MemoryMap::new(vec![region(0x10_0000, 0x10_0000 + HEAP_SIZE, true)]).unwrap();
    let mut mapper = PageMapper::new();
    // A stale mapping inside the heap range.
    assert!(mapper.map_to(HEAP_START + 3 * PAGE_SIZE, 0xdead_0000, PAGE_PRESENT).is_ok());
    assert_eq!(init_memory_management(map, &mut mapper), Err(MemoryError::MappingFailed));
}

#[test]
fn heap_activation_and_self_test() {
    assert_eq!(test_heap_allocation(), Ok(()));

    let mut heap = init_heap().expect("heap initialization failed");
    // A real allocation honors size and alignment and is non-null.
    let addr = heap.allocate(100, 64).expect("allocation failed");
    assert!(addr > 0);
    assert_eq!(addr % 64, 0);
    // A second allocation does not hand out the same block.
    let addr2 = heap.allocate(100, 64).expect("allocation failed");
    assert_ne!(addr, addr2);
}

#[test]
fn platform_memory_manager_stubs() {
    let mut mm = X86MemoryManager::new();
    assert_eq!(mm.init(), Ok(()));
    assert_eq!(mm.allocate_pages(1), Err(MemoryError::FrameAllocationFailed));
    assert_eq!(mm.map_pages(0x1000, 0x2000, 1, PAGE_PRESENT), Err(MemoryError::MappingFailed));
    assert_eq!(mm.deallocate_pages(0x1000, 1), Ok(()));
    assert_eq!(mm.unmap_pages(0x1000, 1), Ok(()));
}

#[test]
fn memory_stats_report_heap_size() {
    let stats = get_memory_stats();
    assert_eq!(stats.heap_size, HEAP_SIZE);
    assert_eq!(stats.total_memory, 0);
    assert_eq!(stats.used_memory, 0);
    assert_eq!(stats.free_memory, 0);
    assert_eq!(stats.heap_used, 0);
}
