//! Physical memory: the regions reported at boot, page frames, and the
//! allocator that hands every usable frame out once.

use vstd::prelude::*;

verus! {

/// Size of a page and of a page frame, in bytes.
pub const PAGE_SIZE: u64 = 4096;

/// First value that is not a physical address: bits 52 and above are clear
/// in every physical address.
pub const PHYS_ADDR_LIMIT: u64 = 0x10_0000_0000_0000;

/// Number of page frames below [`PHYS_ADDR_LIMIT`].
pub const FRAME_LIMIT: u64 = 0x100_0000_0000;

/// The greatest multiple of the page size that is not above `address`.
pub open spec fn page_floor(address: u64) -> u64 {
    (address - address % 4096) as u64
}

/// What a memory region is used for.
#[derive(Debug, Clone, Copy, PartialEq, Eq, Structural)]
pub enum MemoryRegionKind {
    /// Free memory that the kernel may use.
    Usable,
    /// Memory that the bootloader has put to use.
    Bootloader,
    /// A region of a kind that the UEFI firmware named by this number.
    UnknownUefi(u32),
    /// A region of a kind that the BIOS firmware named by this number.
    UnknownBios(u32),
}

/// A range of physical memory, `start` included and `end` excluded.
#[derive(Debug, Clone, Copy, PartialEq, Eq, Structural)]
pub struct MemoryRegion {
    pub start: u64,
    pub end: u64,
    pub kind: MemoryRegionKind,
}

impl MemoryRegion {
    /// Whether the kernel may use the region.
    pub open spec fn is_usable(self) -> bool {
        self.kind == MemoryRegionKind::Usable
    }

    /// The region lies below the physical address limit, starts and ends on
    /// a page boundary, and does not end before it starts.
    pub open spec fn is_page_aligned(self) -> bool {
        &&& self.start <= self.end
        &&& self.end <= PHYS_ADDR_LIMIT
        &&& self.start % 4096 == 0
        &&& self.end % 4096 == 0
    }

    /// Number of frames that the region offers: none unless it is usable.
    pub open spec fn frame_count(self) -> nat {
        if self.is_usable() && self.start < self.end {
            ((self.end - self.start) / 4096) as nat
        } else {
            0
        }
    }

    /// Start addresses of the frames that the region offers, ascending.
    pub open spec fn frames(self) -> Seq<u64> {
        Seq::new(self.frame_count(), |k: int| (self.start + k * 4096) as u64)
    }

    /// Whether the kernel may use the region.
    pub fn usable(&self) -> (r: bool)
        ensures
            r == self.is_usable(),
    {
        match self.kind {
            MemoryRegionKind::Usable => true,
            _ => false,
        }
    }
}

/// Two regions share no address.
pub open spec fn regions_disjoint(a: MemoryRegion, b: MemoryRegion) -> bool {
    a.end <= b.start || b.end <= a.start || a.start >= a.end || b.start >= b.end
}

/// The condition under which a memory map may be handed to the frame
/// allocator: every usable region is page aligned and below the physical
/// address limit, and no two usable regions overlap.
pub open spec fn valid_memory_map(map: Seq<MemoryRegion>) -> bool {
    &&& forall|i: int| 0 <= i < map.len() && (#[trigger] map[i]).is_usable() ==> map[i].is_page_aligned()
    &&& forall|i: int, j: int|
        0 <= i < map.len() && 0 <= j < map.len() && i != j && (#[trigger] map[i]).is_usable()
            && (#[trigger] map[j]).is_usable() ==> regions_disjoint(map[i], map[j])
}

/// Start addresses of all frames that a memory map offers: those of its
/// usable regions, region after region in the order of the map.
pub open spec fn usable_frame_addresses(map: Seq<MemoryRegion>) -> Seq<u64>
    decreases map.len(),
{
    if map.len() == 0 {
        Seq::empty()
    } else {
        usable_frame_addresses(map.drop_last()) + map.last().frames()
    }
}

/// What the allocator hands out when its cursor stands at `cursor`: the
/// frame at that position among the usable frames, or nothing past the end.
pub open spec fn frame_issued_at(map: Seq<MemoryRegion>, cursor: nat) -> Option<u64> {
    if cursor < usable_frame_addresses(map).len() {
        Some(usable_frame_addresses(map)[cursor as int])
    } else {
        None
    }
}

/// Where the cursor stands after `calls` allocations that began at `cursor`.
/// The cursor counts every call and stops at the largest value it can hold.
pub open spec fn cursor_after(cursor: nat, calls: nat) -> nat {
    if cursor + calls <= u64::MAX {
        cursor + calls
    } else if cursor <= u64::MAX {
        u64::MAX as nat
    } else {
        cursor
    }
}

/// A 4 KiB frame of physical memory, named by its start address.
#[derive(Debug, Clone, Copy, PartialEq, Eq, Structural)]
pub struct PhysFrame {
    start_address: u64,
}

impl View for PhysFrame {
    type V = u64;

    /// The start address of the frame.
    closed spec fn view(&self) -> u64 {
        self.start_address
    }
}

/// Calls `PhysFrame::containing_address` of the x86_64 crate on the physical
/// address `address` and takes the start address of the frame it returns.
/// The contract claims that this is `address` rounded down to a multiple of
/// 4096; addresses that `PhysAddr::new` refuses are left out.
#[verifier::external_body]
fn frame_start_containing(address: u64) -> (start: u64)
    requires
        address < PHYS_ADDR_LIMIT,
    ensures
        start == page_floor(address),
{
    x86_64::structures::paging::PhysFrame::<x86_64::structures::paging::Size4KiB>::containing_address(
        x86_64::PhysAddr::new(address),
    ).start_address().as_u64()
}

impl PhysFrame {
    #[verifier::type_invariant]
    spec fn aligned(self) -> bool {
        self.start_address % 4096 == 0 && self.start_address < PHYS_ADDR_LIMIT
    }

    /// The frame that holds the physical address `address`.
    pub fn containing_address(address: u64) -> (frame: PhysFrame)
        requires
            address < PHYS_ADDR_LIMIT,
        ensures
            frame@ == page_floor(address),
    {
        let start = frame_start_containing(address);
        assert(start % 4096 == 0 && start <= address) by (nonlinear_arith)
            requires
                start == (address - address % 4096) as u64,
        ;
        PhysFrame { start_address: start }
    }

    /// The first address of the frame: a multiple of the page size below the
    /// physical address limit.
    pub fn start_address(self) -> (address: u64)
        ensures
            address == self@,
            address % 4096 == 0,
            address < PHYS_ADDR_LIMIT,
    {
        proof {
            use_type_invariant(&self);
        }
        self.start_address
    }
}

/// The frames of the first `i + 1` regions are those of the first `i`
/// followed by those of region `i`.
proof fn lemma_frames_of_next_region(map: Seq<MemoryRegion>, i: int)
    requires
        0 <= i < map.len(),
    ensures
        usable_frame_addresses(map.take(i + 1)) == usable_frame_addresses(map.take(i))
            + map[i].frames(),
{
    assert(map.take(i + 1).drop_last() =~= map.take(i));
}

/// The frames of the first `i` regions open the sequence of all frames.
proof fn lemma_frames_of_prefix(map: Seq<MemoryRegion>, i: int)
    requires
        0 <= i <= map.len(),
    ensures
        usable_frame_addresses(map.take(i)).len() <= usable_frame_addresses(map).len(),
        forall|n: int|
            0 <= n < usable_frame_addresses(map.take(i)).len() ==> usable_frame_addresses(
                map.take(i),
            )[n] == usable_frame_addresses(map)[n],
    decreases map.len(),
{
    if i == map.len() {
        assert(map.take(i) =~= map);
    } else {
        assert(map.drop_last().take(i) =~= map.take(i));
        lemma_frames_of_prefix(map.drop_last(), i);
    }
}

/// A valid memory map stays valid when its last region is left out.
proof fn lemma_shorter_map_is_valid(map: Seq<MemoryRegion>)
    requires
        valid_memory_map(map),
        map.len() > 0,
    ensures
        valid_memory_map(map.drop_last()),
{
    let rest = map.drop_last();
    assert forall|i: int| 0 <= i < rest.len() implies rest[i] == map[i] by {}
}

/// Every frame that a valid map offers lies in one of its usable regions
/// and starts on a page boundary.
pub proof fn lemma_frame_lies_in_usable_region(map: Seq<MemoryRegion>, n: int) -> (j: int)
    requires
        valid_memory_map(map),
        0 <= n < usable_frame_addresses(map).len(),
    ensures
        0 <= j < map.len(),
        map[j].is_usable(),
        map[j].start <= usable_frame_addresses(map)[n],
        usable_frame_addresses(map)[n] + 4096 <= map[j].end,
        usable_frame_addresses(map)[n] % 4096 == 0,
    decreases map.len(),
{
    let before = usable_frame_addresses(map.drop_last());
    if n < before.len() {
        lemma_shorter_map_is_valid(map);
        lemma_frame_lies_in_usable_region(map.drop_last(), n)
    } else {
        let region = map.last();
        let k = n - before.len();
        assert(usable_frame_addresses(map)[n] == region.frames()[k]);
        assert(region == map[map.len() - 1] && region.is_page_aligned());
        assert(region.start + k * 4096 + 4096 <= region.end && (region.start + k * 4096) % 4096 == 0)
            by (nonlinear_arith)
            requires
                0 <= k < (region.end - region.start) / 4096,
                region.start % 4096 == 0,
                region.end % 4096 == 0,
                region.start <= region.end,
        ;
        map.len() - 1
    }
}

/// No frame occurs twice among the frames that a valid memory map offers.
pub proof fn lemma_usable_frames_are_distinct(map: Seq<MemoryRegion>)
    requires
        valid_memory_map(map),
    ensures
        usable_frame_addresses(map).no_duplicates(),
    decreases map.len(),
{
    if map.len() > 0 {
        let rest = map.drop_last();
        let region = map.last();
        let before = usable_frame_addresses(rest);
        let here = region.frames();
        lemma_shorter_map_is_valid(map);
        lemma_usable_frames_are_distinct(rest);
        assert(region == map[map.len() - 1]);
        assert forall|a: int, b: int| 0 <= a < here.len() && 0 <= b < here.len() && a != b implies here[a]
            != here[b] by {
            assert(region.is_page_aligned());
            assert(region.start + a * 4096 < region.end && region.start + b * 4096 < region.end
                && a * 4096 != b * 4096) by (nonlinear_arith)
                requires
                    0 <= a < (region.end - region.start) / 4096,
                    0 <= b < (region.end - region.start) / 4096,
                    a != b,
                    region.start <= region.end,
            ;
        }
        assert forall|a: int, b: int| 0 <= a < before.len() && 0 <= b < here.len() implies before[a]
            != here[b] by {
            let j = lemma_frame_lies_in_usable_region(rest, a);
            assert(rest[j] == map[j]);
            assert(region.is_page_aligned());
            assert(regions_disjoint(map[j], map[map.len() - 1]));
            assert(region.start <= region.start + b * 4096 && region.start + b * 4096 < region.end)
                by (nonlinear_arith)
                requires
                    0 <= b < (region.end - region.start) / 4096,
                    region.start <= region.end,
            ;
        }
        vstd::seq_lib::lemma_no_dup_in_concat(before, here);
    }
}

/// A valid memory map offers no more frames than there are below the
/// physical address limit.
pub proof fn lemma_usable_frames_are_bounded(map: Seq<MemoryRegion>)
    requires
        valid_memory_map(map),
    ensures
        usable_frame_addresses(map).len() <= FRAME_LIMIT,
{
    let frames = usable_frame_addresses(map);
    let numbers = Seq::new(frames.len(), |n: int| frames[n] as int / 4096);
    lemma_usable_frames_are_distinct(map);
    assert forall|n: int| 0 <= n < frames.len() implies frames[n] % 4096 == 0 && frames[n]
        < PHYS_ADDR_LIMIT by {
        let j = lemma_frame_lies_in_usable_region(map, n);
        assert(map[j].is_page_aligned());
    }
    assert forall|a: int, b: int| 0 <= a < numbers.len() && 0 <= b < numbers.len() && a
        != b implies numbers[a] != numbers[b] by {
        assert(frames[a] != frames[b]);
    }
    numbers.unique_seq_to_set();
    vstd::set_lib::lemma_int_range(0, FRAME_LIMIT as int);
    assert forall|x: int| numbers.to_set().contains(x) implies vstd::set_lib::set_int_range(
        0,
        FRAME_LIMIT as int,
    ).contains(x) by {
        let n = choose|n: int| 0 <= n < numbers.len() && numbers[n] == x;
        assert(frames[n] < PHYS_ADDR_LIMIT);
    }
    vstd::set_lib::lemma_len_subset(
        numbers.to_set(),
        vstd::set_lib::set_int_range(0, FRAME_LIMIT as int),
    );
}

/// No frame is issued twice: of the calls that follow a state with cursor
/// `cursor`, two different ones never return the same frame.
pub proof fn lemma_no_double_issue(map: Seq<MemoryRegion>, cursor: u64, first: nat, second: nat)
    requires
        valid_memory_map(map),
        first != second,
    ensures
        ({
            let a = frame_issued_at(map, cursor_after(cursor as nat, first));
            let b = frame_issued_at(map, cursor_after(cursor as nat, second));
            a is Some && b is Some ==> a != b
        }),
{
    lemma_usable_frames_are_distinct(map);
    lemma_usable_frames_are_bounded(map);
}

/// A new allocator issues every usable frame of its map, in order, and once
/// it has issued them all, every later call returns nothing.
pub proof fn lemma_exhaustion_is_final(map: Seq<MemoryRegion>, calls: nat)
    requires
        valid_memory_map(map),
    ensures
        calls < usable_frame_addresses(map).len() ==> frame_issued_at(map, cursor_after(0, calls))
            == Some(usable_frame_addresses(map)[calls as int]),
        calls >= usable_frame_addresses(map).len() ==> frame_issued_at(map, cursor_after(0, calls))
            is None,
{
    lemma_usable_frames_are_bounded(map);
}

/// Once a call has returned nothing, every later call returns nothing.
pub proof fn lemma_exhausted_stays_exhausted(map: Seq<MemoryRegion>, cursor: u64, calls: nat)
    requires
        frame_issued_at(map, cursor as nat) is None,
    ensures
        frame_issued_at(map, cursor_after(cursor as nat, calls)) is None,
{
}

/// The cursor never moves back, and counting call by call is counting all
/// calls at once.
pub proof fn lemma_cursor_only_advances(cursor: u64, calls: nat)
    ensures
        cursor_after(cursor as nat, calls) >= cursor,
        cursor_after(cursor as nat, calls + 1) >= cursor_after(cursor as nat, calls),
        cursor_after(cursor_after(cursor as nat, calls), 1) == cursor_after(cursor as nat, calls + 1),
{
}

/// Hands out the usable frames of the boot memory map, each of them once.
pub struct BootInfoFrameAllocator<'a> {
    memory_map: &'a [MemoryRegion],
    next: u64,
}

impl<'a> BootInfoFrameAllocator<'a> {
    #[verifier::type_invariant]
    spec fn map_is_valid(self) -> bool {
        valid_memory_map(self.memory_map@)
    }

    /// The memory map that the allocator draws from.
    pub closed spec fn memory_map(self) -> Seq<MemoryRegion> {
        self.memory_map@
    }

    /// Number of calls of `allocate_frame` so far, as far as the cursor can
    /// count them.
    pub closed spec fn cursor(self) -> nat {
        self.next as nat
    }

    /// An allocator over `memory_map` that has issued nothing yet.
    pub fn init(memory_map: &'a [MemoryRegion]) -> (allocator: Self)
        requires
            valid_memory_map(memory_map@),
        ensures
            allocator.memory_map() == memory_map@,
            allocator.cursor() == 0,
    {
        BootInfoFrameAllocator { memory_map, next: 0 }
    }

    /// The frame at position `n` among the usable frames, if there are that
    /// many.
    fn frame_at(&self, n: u64) -> (frame: Option<PhysFrame>)
        ensures
            match frame {
                Some(f) => frame_issued_at(self.memory_map(), n as nat) == Some(f@),
                None => frame_issued_at(self.memory_map(), n as nat) is None,
            },
    {
        proof {
            use_type_invariant(self);
        }
        let ghost map = self.memory_map@;
        let mut skipped: u64 = 0;
        let mut i: usize = 0;
        while i < self.memory_map.len()
            invariant
                map == self.memory_map@,
                valid_memory_map(map),
                0 <= i <= map.len(),
                skipped == usable_frame_addresses(map.take(i as int)).len(),
                skipped <= n,
            decreases map.len() - i,
        {
            let region = &self.memory_map[i];
            proof {
                lemma_frames_of_next_region(map, i as int);
                lemma_frames_of_prefix(map, i + 1);
            }
            if region.usable() && region.start < region.end {
                let count: u64 = (region.end - region.start) / PAGE_SIZE;
                if n - skipped < count {
                    let k: u64 = n - skipped;
                    assert(region.start + k * 4096 < region.end) by (nonlinear_arith)
                        requires
                            0 <= k < (region.end - region.start) / 4096,
                            region.start <= region.end,
                    ;
                    assert(region.start % 4096 == 0);
                    assert((region.start + k * 4096) % 4096 == 0) by (nonlinear_arith)
                        requires
                            region.start % 4096 == 0,
                    ;
                    let address: u64 = region.start + k * PAGE_SIZE;
                    assert(usable_frame_addresses(map.take(i + 1))[n as int] == region.frames()[k as int]);
                    return Some(PhysFrame::containing_address(address));
                }
                skipped = skipped + count;
            }
            i = i + 1;
        }
        assert(map.take(i as int) =~= map);
        None
    }

    /// All usable frames of the memory map, in the order in which they are
    /// issued.
    pub fn usable_frames(&self) -> (frames: Vec<PhysFrame>)
        ensures
            frames@.len() == usable_frame_addresses(self.memory_map()).len(),
            forall|n: int|
                0 <= n < frames@.len() ==> (#[trigger] frames@[n])@ == usable_frame_addresses(
                    self.memory_map(),
                )[n],
    {
        proof {
            use_type_invariant(self);
        }
        let ghost map = self.memory_map@;
        let mut frames: Vec<PhysFrame> = Vec::new();
        let mut i: usize = 0;
        while i < self.memory_map.len()
            invariant
                map == self.memory_map@,
                valid_memory_map(map),
                0 <= i <= map.len(),
                frames@.len() == usable_frame_addresses(map.take(i as int)).len(),
                forall|n: int|
                    0 <= n < frames@.len() ==> (#[trigger] frames@[n])@ == usable_frame_addresses(
                        map.take(i as int),
                    )[n],
            decreases map.len() - i,
        {
            let region = &self.memory_map[i];
            let ghost before = usable_frame_addresses(map.take(i as int));
            proof {
                lemma_frames_of_next_region(map, i as int);
            }
            if region.usable() && region.start < region.end {
                let count: u64 = (region.end - region.start) / PAGE_SIZE;
                let mut k: u64 = 0;
                while k < count
                    invariant
                        0 <= k <= count,
                        count == region.frame_count(),
                        region.is_page_aligned(),
                        region.start < region.end,
                        frames@.len() == before.len() + k,
                        forall|n: int|
                            0 <= n < frames@.len() ==> (#[trigger] frames@[n])@ == (before
                                + region.frames())[n],
                    decreases count - k,
                {
                    assert(region.start + k * 4096 < region.end) by (nonlinear_arith)
                        requires
                            0 <= k < (region.end - region.start) / 4096,
                            region.start <= region.end,
                    ;
                    assert((region.start + k * 4096) % 4096 == 0) by (nonlinear_arith)
                        requires
                            region.start % 4096 == 0,
                    ;
                    let address: u64 = region.start + k * PAGE_SIZE;
                    frames.push(PhysFrame::containing_address(address));
                    k = k + 1;
                }
            }
            i = i + 1;
        }
        assert(map.take(i as int) =~= map);
        frames
    }

    /// Issues the next usable frame, or nothing once all have been issued.
    /// Every call moves the cursor on by one.
    pub fn allocate_frame(&mut self) -> (frame: Option<PhysFrame>)
        ensures
            final(self).memory_map() == old(self).memory_map(),
            final(self).cursor() == cursor_after(old(self).cursor(), 1),
            match frame {
                Some(f) => frame_issued_at(old(self).memory_map(), old(self).cursor()) == Some(f@),
                None => frame_issued_at(old(self).memory_map(), old(self).cursor()) is None,
            },
    {
        proof {
            use_type_invariant(&*self);
        }
        let frame = self.frame_at(self.next);
        if self.next < u64::MAX {
            self.next = self.next + 1;
        }
        frame
    }
}

/// Whether `map` may be handed to the frame allocator.
pub fn is_valid_memory_map(map: &[MemoryRegion]) -> (valid: bool)
    ensures
        valid == valid_memory_map(map@),
{
    let mut i: usize = 0;
    while i < map.len()
        invariant
            0 <= i <= map.len(),
            valid_memory_map(map@.take(i as int)),
        decreases map.len() - i,
    {
        let a = &map[i];
        if a.usable() {
            if !(a.start <= a.end && a.end <= PHYS_ADDR_LIMIT && a.start % PAGE_SIZE == 0 && a.end
                % PAGE_SIZE == 0) {
                return false;
            }
            let mut j: usize = 0;
            while j < i
                invariant
                    0 <= j <= i < map.len(),
                    a == map@[i as int],
                    a.is_usable(),
                    forall|k: int|
                        0 <= k < j && (#[trigger] map@[k]).is_usable() ==> regions_disjoint(
                            map@[k],
                            map@[i as int],
                        ),
                decreases i - j,
            {
                let b = &map[j];
                if b.usable() && !(a.end <= b.start || b.end <= a.start || a.start >= a.end
                    || b.start >= b.end) {
                    assert(!regions_disjoint(map@[j as int], map@[i as int]));
                    assert(!regions_disjoint(map@[i as int], map@[j as int]));
                    return false;
                }
                j = j + 1;
            }
        }
        proof {
            let shorter = map@.take(i as int);
            let longer = map@.take(i + 1);
            assert forall|k: int| 0 <= k < shorter.len() implies shorter[k] == longer[k] by {}
            assert forall|x: int, y: int|
                0 <= x < longer.len() && 0 <= y < longer.len() && x != y && (
                #[trigger] longer[x]).is_usable() && (#[trigger] longer[y]).is_usable() implies regions_disjoint(
                longer[x],
                longer[y],
            ) by {
                if x < i && y < i {
                    assert(regions_disjoint(shorter[x], shorter[y]));
                }
            }
        }
        i = i + 1;
    }
    assert(map@.take(i as int) =~= map@);
    true
}

} // verus!
