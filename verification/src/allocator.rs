//! The kernel heap: where it lies, how it gets its memory, and the allocator
//! that serves it.
//!
//! Mapping the heap alternates between this module and the page tables. The
//! module says which page to map to which frame; the caller installs the
//! mapping and reports how it went.

use vstd::prelude::*;
use crate::memory::{
    cursor_after, frame_issued_at, page_floor, BootInfoFrameAllocator, PhysFrame, PAGE_SIZE,
};

pub mod fixed_size_block;

verus! {

/// First virtual address of the heap.
pub const HEAP_START: u64 = 0x_4444_4444_0000;

/// Size of the heap in bytes: 100 KiB.
pub const HEAP_SIZE: u64 = 1024 * 100;

/// Number of pages that hold a byte of the heap.
pub const HEAP_PAGES: u64 = 25;

/// Whether `address` is a canonical virtual address: bits 48 to 63 repeat
/// bit 47.
pub open spec fn is_canonical(address: u64) -> bool {
    address < 0x8000_0000_0000 || address >= 0xffff_8000_0000_0000
}

/// Number of pages from the one that holds the first byte of the heap to the
/// one that holds its last byte, both included.
pub open spec fn heap_page_count() -> nat {
    ((page_floor((HEAP_START + HEAP_SIZE - 1) as u64) - page_floor(HEAP_START)) / 4096 + 1) as nat
}

/// Start address of the heap page with this number; the page that holds the
/// first byte of the heap has number 0.
pub open spec fn heap_page(index: nat) -> u64 {
    (page_floor(HEAP_START) + index * 4096) as u64
}

/// A 4 KiB page of virtual memory, named by its start address.
#[derive(Debug, Clone, Copy, PartialEq, Eq, Structural)]
pub struct Page {
    start_address: u64,
}

impl View for Page {
    type V = u64;

    /// The start address of the page.
    closed spec fn view(&self) -> u64 {
        self.start_address
    }
}

/// Calls `Page::containing_address` of the x86_64 crate on the virtual
/// address `address` and takes the start address of the page it returns.
/// The contract claims that this is `address` rounded down to a multiple of
/// 4096; addresses that `VirtAddr::new` refuses are left out.
#[verifier::external_body]
fn page_start_containing(address: u64) -> (start: u64)
    requires
        is_canonical(address),
    ensures
        start == page_floor(address),
{
    x86_64::structures::paging::Page::<x86_64::structures::paging::Size4KiB>::containing_address(
        x86_64::VirtAddr::new(address),
    ).start_address().as_u64()
}

/// Takes the bits of `PageTableFlags::PRESENT | PageTableFlags::WRITABLE`
/// from the x86_64 crate. The contract claims that they are bit 0 and bit 1.
#[verifier::external_body]
fn present_writable_bits() -> (bits: u64)
    ensures
        bits == 3,
{
    (x86_64::structures::paging::PageTableFlags::PRESENT
        | x86_64::structures::paging::PageTableFlags::WRITABLE).bits()
}

impl Page {
    #[verifier::type_invariant]
    spec fn aligned(self) -> bool {
        self.start_address % 4096 == 0 && is_canonical(self.start_address)
    }

    /// The page that holds the virtual address `address`.
    pub fn containing_address(address: u64) -> (page: Page)
        requires
            is_canonical(address),
        ensures
            page@ == page_floor(address),
    {
        let start = page_start_containing(address);
        assert(start % 4096 == 0 && start <= address && address - start < 4096) by (nonlinear_arith)
            requires
                start == (address - address % 4096) as u64,
        ;
        Page { start_address: start }
    }

    /// The first address of the page: a canonical address that is a
    /// multiple of the page size.
    pub fn start_address(self) -> (address: u64)
        ensures
            address == self@,
            address % 4096 == 0,
            is_canonical(address),
    {
        proof {
            use_type_invariant(&self);
        }
        self.start_address
    }
}

/// Flags of a page table entry, as the bits of the entry.
#[derive(Debug, Clone, Copy, PartialEq, Eq, Structural)]
pub struct PageTableFlags {
    bits: u64,
}

impl View for PageTableFlags {
    type V = u64;

    /// The bits of the flags.
    closed spec fn view(&self) -> u64 {
        self.bits
    }
}

impl PageTableFlags {
    /// The flags of a page that is present and may be written to: bit 0
    /// and bit 1.
    pub fn present_writable() -> (flags: PageTableFlags)
        ensures
            flags@ == 3,
    {
        PageTableFlags { bits: present_writable_bits() }
    }

    /// The bits of the flags.
    pub fn bits(self) -> (bits: u64)
        ensures
            bits == self@,
    {
        self.bits
    }
}

/// Why a page could not be mapped.
#[derive(Debug, Clone, Copy, PartialEq, Eq, Structural)]
pub enum MapToError {
    /// A frame was needed and the frame allocator had none left.
    FrameAllocationFailed,
    /// The page is part of a huge page that is mapped already.
    ParentEntryHugePage,
    /// The page is mapped to this frame already.
    PageAlreadyMapped(PhysFrame),
}

/// A heap mapping that waits for the outcome of one page.
#[derive(Debug, Clone, Copy, PartialEq, Eq, Structural)]
pub struct HeapInit {
    mapped: u64,
}

/// What the caller does next while the heap is set up.
#[derive(Debug, Clone, Copy, PartialEq, Eq, Structural)]
pub enum HeapInitStep {
    /// Map `page` to `frame` with `flags`, flush the new translation, and
    /// hand the outcome to `resume` of `pending`.
    MapPage { page: Page, frame: PhysFrame, flags: PageTableFlags, pending: HeapInit },
    /// Every heap page is mapped: initialize the allocator over these
    /// bounds. The heap is then ready.
    Ready { heap_start: u64, heap_size: u64 },
    /// The heap cannot be set up. What was mapped so far stays mapped.
    Failed(MapToError),
}

/// What is to be done when `index` heap pages are mapped and the frame
/// allocator has answered `frame` to the request for the next one.
pub open spec fn is_heap_init_step(step: HeapInitStep, index: nat, frame: Option<u64>) -> bool {
    if index >= heap_page_count() {
        step == (HeapInitStep::Ready { heap_start: HEAP_START, heap_size: HEAP_SIZE })
    } else {
        match frame {
            None => step == HeapInitStep::Failed(MapToError::FrameAllocationFailed),
            Some(address) => {
                &&& step matches HeapInitStep::MapPage { page, frame, flags, pending }
                &&& page@ == heap_page(index)
                &&& frame@ == address
                &&& flags@ == 3
                &&& pending.mapped() == index
            },
        }
    }
}

/// There are 25 heap pages. They are page aligned, they follow one another
/// without a gap, and every byte of the heap lies in one of them.
pub proof fn lemma_heap_pages_cover_heap(address: u64) -> (index: nat)
    requires
        HEAP_START <= address < HEAP_START + HEAP_SIZE,
    ensures
        heap_page_count() == HEAP_PAGES,
        index < heap_page_count(),
        heap_page(index) <= address < heap_page(index) + 4096,
        heap_page(index) % 4096 == 0,
        heap_page(index) == page_floor(address),
{
    let index = ((address - HEAP_START) / 4096) as nat;
    assert(HEAP_START % 4096 == 0);
    index
}

/// Decides the step that follows when `index` heap pages are mapped.
fn heap_init_step(index: u64, frame_allocator: &mut BootInfoFrameAllocator<'_>) -> (step:
    HeapInitStep)
    requires
        index <= HEAP_PAGES,
    ensures
        final(frame_allocator).memory_map() == old(frame_allocator).memory_map(),
        final(frame_allocator).cursor() == if index < HEAP_PAGES {
            cursor_after(old(frame_allocator).cursor(), 1)
        } else {
            old(frame_allocator).cursor()
        },
        is_heap_init_step(
            step,
            index as nat,
            frame_issued_at(old(frame_allocator).memory_map(), old(frame_allocator).cursor()),
        ),
{
    assert(HEAP_START % 4096 == 0);
    if index >= HEAP_PAGES {
        return HeapInitStep::Ready { heap_start: HEAP_START, heap_size: HEAP_SIZE };
    }
    let first = Page::containing_address(HEAP_START);
    let page = Page::containing_address(first.start_address() + index * PAGE_SIZE);
    match frame_allocator.allocate_frame() {
        None => HeapInitStep::Failed(MapToError::FrameAllocationFailed),
        Some(frame) => HeapInitStep::MapPage {
            page,
            frame,
            flags: PageTableFlags::present_writable(),
            pending: HeapInit { mapped: index },
        },
    }
}

/// Begins to set up the heap: asks for a frame for the first heap page and
/// says how to map it. The steps that follow come from
/// [`HeapInit::resume`], one for each page, until the heap is ready or a
/// page cannot be backed or mapped.
pub fn init_heap(frame_allocator: &mut BootInfoFrameAllocator<'_>) -> (step: HeapInitStep)
    ensures
        final(frame_allocator).memory_map() == old(frame_allocator).memory_map(),
        final(frame_allocator).cursor() == cursor_after(old(frame_allocator).cursor(), 1),
        is_heap_init_step(
            step,
            0,
            frame_issued_at(old(frame_allocator).memory_map(), old(frame_allocator).cursor()),
        ),
{
    heap_init_step(0, frame_allocator)
}

impl HeapInit {
    #[verifier::type_invariant]
    spec fn in_progress(self) -> bool {
        self.mapped < HEAP_PAGES
    }

    /// Number of heap pages that were mapped before the one that is
    /// awaited.
    pub closed spec fn mapped(self) -> nat {
        self.mapped as nat
    }

    /// Number of heap pages that were mapped before the one that is
    /// awaited: fewer than there are heap pages.
    pub fn pages_mapped(self) -> (mapped: u64)
        ensures
            mapped == self.mapped(),
            mapped < HEAP_PAGES,
    {
        proof {
            use_type_invariant(&self);
        }
        self.mapped
    }

    /// Goes on after the awaited page. Where mapping it failed, the error
    /// is passed on and no frame is taken. Where it went well, the next
    /// heap page gets a frame, or the heap is ready when there is no next
    /// page.
    pub fn resume(
        self,
        outcome: Result<(), MapToError>,
        frame_allocator: &mut BootInfoFrameAllocator<'_>,
    ) -> (step: HeapInitStep)
        ensures
            final(frame_allocator).memory_map() == old(frame_allocator).memory_map(),
            match outcome {
                Err(error) => step == HeapInitStep::Failed(error) && final(frame_allocator).cursor()
                    == old(frame_allocator).cursor(),
                Ok(_) => is_heap_init_step(
                    step,
                    self.mapped() + 1,
                    frame_issued_at(old(frame_allocator).memory_map(), old(frame_allocator).cursor()),
                ) && final(frame_allocator).cursor() == if self.mapped() + 1 < HEAP_PAGES {
                    cursor_after(old(frame_allocator).cursor(), 1)
                } else {
                    old(frame_allocator).cursor()
                },
            },
    {
        proof {
            use_type_invariant(&self);
        }
        match outcome {
            Err(error) => HeapInitStep::Failed(error),
            Ok(_) => heap_init_step(self.mapped + 1, frame_allocator),
        }
    }
}

} // verus!
