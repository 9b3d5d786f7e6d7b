use enigma_kernel::allocator::{
    init_heap, HeapInitStep, MapToError, Page, PageTableFlags, HEAP_PAGES, HEAP_SIZE, HEAP_START,
};
use enigma_kernel::memory::{BootInfoFrameAllocator, MemoryRegion, MemoryRegionKind, PhysFrame};

fn usable(start: u64, end: u64) -> MemoryRegion {
    MemoryRegion { start, end, kind: MemoryRegionKind::Usable }
}

#[test]
fn heap_constants() {
    assert_eq!(HEAP_START, 0x4444_4444_0000);
    assert_eq!(HEAP_SIZE, 102_400);
    assert_eq!(HEAP_PAGES, 25);
    assert_eq!(HEAP_PAGES * 4096, HEAP_SIZE);
}

#[test]
fn page_contains_its_address() {
    assert_eq!(Page::containing_address(HEAP_START).start_address(), HEAP_START);
    assert_eq!(Page::containing_address(HEAP_START + 5).start_address(), HEAP_START);
    assert_eq!(
        Page::containing_address(HEAP_START + HEAP_SIZE - 1).start_address(),
        HEAP_START + 24 * 4096
    );
    assert_eq!(
        Page::containing_address(0xffff_8000_0000_1fff).start_address(),
        0xffff_8000_0000_1000
    );
    assert_eq!(Page::containing_address(0x7fff_ffff_ffff).start_address(), 0x7fff_ffff_f000);
}

#[test]
fn heap_pages_are_present_and_writable() {
    assert_eq!(PageTableFlags::present_writable().bits(), 0b11);
}

#[test]
fn every_heap_page_is_mapped_once_in_order() {
    let map = vec![usable(0x10_0000, 0x20_0000)];
    let mut frames = BootInfoFrameAllocator::init(&map);
    let mut step = init_heap(&mut frames);
    let mut pages: Vec<u64> = Vec::new();
    let mut backing: Vec<u64> = Vec::new();
    loop {
        match step {
            HeapInitStep::MapPage { page, frame, flags, pending } => {
                assert_eq!(flags.bits(), 3);
                assert_eq!(pending.pages_mapped(), pages.len() as u64);
                pages.push(page.start_address());
                backing.push(frame.start_address());
                step = pending.resume(Ok(()), &mut frames);
            }
            HeapInitStep::Ready { heap_start, heap_size } => {
                assert_eq!(heap_start, HEAP_START);
                assert_eq!(heap_size, HEAP_SIZE);
                break;
            }
            HeapInitStep::Failed(error) => panic!("unexpected failure: {:?}", error),
        }
    }
    let expected_pages: Vec<u64> = (0..25).map(|k| HEAP_START + k * 4096).collect();
    let expected_frames: Vec<u64> = (0..25).map(|k| 0x10_0000 + k * 4096).collect();
    assert_eq!(pages, expected_pages);
    assert_eq!(backing, expected_frames);
    // The frame allocator has moved on by exactly the frames handed out.
    assert_eq!(frames.allocate_frame().map(|f| f.start_address()), Some(0x10_0000 + 25 * 4096));
}

#[test]
fn frames_taken_by_the_page_tables_are_skipped() {
    let map = vec![usable(0x10_0000, 0x20_0000)];
    let mut frames = BootInfoFrameAllocator::init(&map);
    let first = init_heap(&mut frames);
    let pending = match first {
        HeapInitStep::MapPage { frame, pending, .. } => {
            assert_eq!(frame.start_address(), 0x10_0000);
            pending
        }
        other => panic!("unexpected step: {:?}", other),
    };
    // Mapping the first page took three frames for new page tables.
    for _ in 0..3 {
        assert!(frames.allocate_frame().is_some());
    }
    match pending.resume(Ok(()), &mut frames) {
        HeapInitStep::MapPage { page, frame, .. } => {
            assert_eq!(page.start_address(), HEAP_START + 4096);
            assert_eq!(frame.start_address(), 0x10_4000);
        }
        other => panic!("unexpected step: {:?}", other),
    }
}

#[test]
fn missing_frame_fails_the_setup() {
    let map = vec![usable(0x1000, 0x4000)];
    let mut frames = BootInfoFrameAllocator::init(&map);
    let mut step = init_heap(&mut frames);
    let mut mapped = 0;
    loop {
        match step {
            HeapInitStep::MapPage { pending, .. } => {
                mapped += 1;
                step = pending.resume(Ok(()), &mut frames);
            }
            HeapInitStep::Failed(error) => {
                assert_eq!(error, MapToError::FrameAllocationFailed);
                break;
            }
            HeapInitStep::Ready { .. } => panic!("the heap cannot be ready"),
        }
    }
    assert_eq!(mapped, 3);
}

#[test]
fn no_usable_memory_fails_at_once() {
    let map: Vec<MemoryRegion> = Vec::new();
    let mut frames = BootInfoFrameAllocator::init(&map);
    assert_eq!(init_heap(&mut frames), HeapInitStep::Failed(MapToError::FrameAllocationFailed));
}

#[test]
fn mapping_errors_are_passed_on() {
    let map = vec![usable(0x10_0000, 0x20_0000)];
    let mapped_to = PhysFrame::containing_address(0x7000);
    for error in [
        MapToError::PageAlreadyMapped(mapped_to),
        MapToError::ParentEntryHugePage,
        MapToError::FrameAllocationFailed,
    ] {
        let mut frames = BootInfoFrameAllocator::init(&map);
        let pending = match init_heap(&mut frames) {
            HeapInitStep::MapPage { pending, .. } => pending,
            other => panic!("unexpected step: {:?}", other),
        };
        assert_eq!(pending.resume(Err(error), &mut frames), HeapInitStep::Failed(error));
        // No frame was taken for a page that will not be mapped.
        assert_eq!(frames.allocate_frame().map(|f| f.start_address()), Some(0x10_1000));
    }
}
