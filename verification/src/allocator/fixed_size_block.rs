//! The heap allocator proper: free lists of blocks in fixed power-of-two
//! sizes, backed by a general allocator that serves what no list can.
//!
//! The allocator decides; it does not touch memory. A request that no free
//! list can serve comes back as a question for the fallback allocator, and
//! the answer is handed to [`FixedSizeBlockAllocator::fallback_alloc`].

use vstd::prelude::*;
use vstd::arithmetic::power2::is_pow2;

verus! {

/// The block sizes to use, ascending.
///
/// Each size is a power of two, because it is also the alignment of the
/// blocks of that size.
pub const BLOCK_SIZES: [usize; 9] = [8, 16, 32, 64, 128, 256, 512, 1024, 2048];

/// The address that stands for a failed allocation.
pub const NULL: usize = 0;

/// Whether `n` is a power of two.
pub fn is_power_of_two(n: usize) -> (r: bool)
    ensures
        r == is_pow2(n as int),
{
    if n == 0 {
        proof {
            reveal_with_fuel(is_pow2, 1);
        }
        return false;
    }
    let mut m: usize = n;
    while m % 2 == 0
        invariant
            0 < m <= n,
            is_pow2(m as int) == is_pow2(n as int),
        decreases m,
    {
        proof {
            reveal_with_fuel(is_pow2, 2);
        }
        m = m / 2;
    }
    proof {
        reveal_with_fuel(is_pow2, 2);
    }
    m == 1
}

/// The condition under which a size and an alignment make a layout: the
/// alignment is a power of two, and the size still fits in an `isize` when
/// it is rounded up to a multiple of the alignment.
pub open spec fn valid_layout(size: usize, align: usize) -> bool {
    is_pow2(align as int) && size + (align - 1) <= isize::MAX
}

/// Size and alignment of a block of memory. The alignment is a power of
/// two, and the size, rounded up to the alignment, fits in an `isize`.
#[derive(Debug, Clone, Copy, PartialEq, Eq, Structural)]
pub struct Layout {
    size: usize,
    align: usize,
}

impl Layout {
    #[verifier::type_invariant]
    spec fn valid(self) -> bool {
        valid_layout(self.size, self.align)
    }

    /// The layout with this size and alignment.
    pub closed spec fn of(size: usize, align: usize) -> Layout {
        Layout { size, align }
    }

    /// The size of the block in bytes.
    pub closed spec fn spec_size(&self) -> usize {
        self.size
    }

    /// The alignment of the block in bytes.
    pub closed spec fn spec_align(&self) -> usize {
        self.align
    }

    /// A layout is its size and its alignment, and nothing else.
    pub broadcast proof fn lemma_layout_is_size_and_align(self)
        ensures
            #[trigger] Layout::of(self.spec_size(), self.spec_align()) == self,
    {
    }

    /// The size and the alignment of a layout are those it was made of.
    pub broadcast proof fn lemma_layout_of(size: usize, align: usize)
        ensures
            (#[trigger] Layout::of(size, align)).spec_size() == size,
            Layout::of(size, align).spec_align() == align,
    {
    }

    /// The layout with this size and alignment, if there is one: `align`
    /// must be a power of two and `size`, rounded up to a multiple of
    /// `align`, must fit in an `isize`.
    pub fn from_size_align(size: usize, align: usize) -> (layout: Option<Layout>)
        ensures
            layout == if valid_layout(size, align) {
                Some(Layout::of(size, align))
            } else {
                None
            },
    {
        if !is_power_of_two(align) {
            return None;
        }
        proof {
            reveal_with_fuel(is_pow2, 1);
        }
        let max: usize = isize::MAX as usize;
        if align - 1 > max || size > max - (align - 1) {
            return None;
        }
        Some(Layout { size, align })
    }

    /// The size of the block in bytes.
    #[verifier::when_used_as_spec(spec_size)]
    pub fn size(&self) -> (size: usize)
        ensures
            size == self.spec_size(),
            valid_layout(size, self.spec_align()),
    {
        proof {
            use_type_invariant(self);
        }
        self.size
    }

    /// The alignment of the block in bytes: a power of two.
    #[verifier::when_used_as_spec(spec_align)]
    pub fn align(&self) -> (align: usize)
        ensures
            align == self.spec_align(),
            valid_layout(self.spec_size(), align),
    {
        proof {
            use_type_invariant(self);
        }
        self.align
    }
}

/// The block size that a request needs: the larger of its size and its
/// alignment.
pub open spec fn required_block_size(layout: Layout) -> usize {
    if layout.spec_size() >= layout.spec_align() {
        layout.spec_size()
    } else {
        layout.spec_align()
    }
}

/// The first size class at or after `from` whose blocks hold `required`
/// bytes.
pub open spec fn first_class_from(required: usize, from: int) -> Option<usize>
    decreases 9 - from,
{
    if from < 0 || from >= 9 {
        None
    } else if BLOCK_SIZES[from] >= required {
        Some(from as usize)
    } else {
        first_class_from(required, from + 1)
    }
}

/// The size class that serves a request: the smallest whose blocks are at
/// least as large as the request's size and alignment. Nothing where even
/// the largest class is too small.
pub open spec fn size_class(layout: Layout) -> Option<usize> {
    first_class_from(required_block_size(layout), 0)
}

/// The layout of the blocks of size class `class`: their size is also their
/// alignment.
pub open spec fn class_layout(class: int) -> Layout {
    Layout::of(BLOCK_SIZES[class], BLOCK_SIZES[class])
}

/// The layout of the block that a request is given: that of its size class
/// where it has one, its own where the fallback allocator serves it as it
/// is.
pub open spec fn granted_layout(layout: Layout) -> Layout {
    match size_class(layout) {
        Some(class) => class_layout(class as int),
        None => layout,
    }
}

/// The size class of a request is the least class that is large enough, and
/// there is none exactly when the request exceeds the largest block size.
pub proof fn lemma_size_class_is_least(layout: Layout)
    ensures
        match size_class(layout) {
            Some(class) => class < 9 && BLOCK_SIZES[class as int] >= required_block_size(layout)
                && forall|smaller: int|
                0 <= smaller < class ==> BLOCK_SIZES[smaller] < required_block_size(layout),
            None => required_block_size(layout) > 2048,
        },
        size_class(layout) is None <==> layout.spec_size() > 2048 || layout.spec_align() > 2048,
{
    reveal_with_fuel(first_class_from, 10);
}

/// Every block size is a power of two at least as large as a machine word,
/// so a block is large enough, and aligned, to hold a link to another.
pub proof fn lemma_block_sizes_are_powers_of_two(class: int)
    requires
        0 <= class < 9,
    ensures
        is_pow2(BLOCK_SIZES[class] as int),
        8 <= BLOCK_SIZES[class] <= 2048,
        valid_layout(BLOCK_SIZES[class], BLOCK_SIZES[class]),
        forall|other: int| 0 <= other < 9 && other != class ==> BLOCK_SIZES[other] != BLOCK_SIZES[class],
        forall|other: int| 0 <= other < class ==> BLOCK_SIZES[other] < BLOCK_SIZES[class],
{
    reveal_with_fuel(is_pow2, 13);
}

/// Choose an appropriate block size for the given layout.
///
/// Returns an index into the `BLOCK_SIZES` array.
pub fn list_index(layout: &Layout) -> (index: Option<usize>)
    ensures
        index == size_class(*layout),
{
    let size = layout.size();
    let align = layout.align();
    let required = if size >= align {
        size
    } else {
        align
    };
    let mut i: usize = 0;
    while i < 9
        invariant
            0 <= i <= 9,
            required == required_block_size(*layout),
            size_class(*layout) == first_class_from(required, i as int),
        decreases 9 - i,
    {
        if BLOCK_SIZES[i] >= required {
            return Some(i);
        }
        i = i + 1;
    }
    None
}

/// What the allocator answers to a request for memory.
#[derive(Debug, Clone, Copy, PartialEq, Eq, Structural)]
pub enum AllocStep {
    /// The request is served by the free block at this address.
    Block(usize),
    /// No free list can serve the request: ask the fallback allocator for a
    /// block of this layout, and hand its answer to `fallback_alloc`.
    Fallback(Layout),
}

/// What the allocator answers when a block is given back.
#[derive(Debug, Clone, Copy, PartialEq, Eq, Structural)]
pub enum DeallocStep {
    /// The block went onto the free list of its size class.
    Kept,
    /// The block belongs to no size class: return it to the fallback
    /// allocator, at this address and with this layout.
    Fallback(usize, Layout),
}

/// What the allocator knows of a block: its layout, and whether it waits on
/// a free list or is in use.
pub struct KnownBlock {
    pub layout: Layout,
    pub free: bool,
}

/// Two blocks share no byte.
pub open spec fn blocks_apart(a: usize, a_size: usize, b: usize, b_size: usize) -> bool {
    a + a_size <= b || b + b_size <= a
}

/// Which block a request is served from, given the free lists.
pub open spec fn alloc_step(lists: Seq<Seq<usize>>, layout: Layout) -> AllocStep {
    match size_class(layout) {
        Some(class) => if lists[class as int].len() > 0 {
            AllocStep::Block(lists[class as int].last())
        } else {
            AllocStep::Fallback(class_layout(class as int))
        },
        None => AllocStep::Fallback(layout),
    }
}

/// The free lists after a request: the list of its size class has lost its
/// head, if it had one.
pub open spec fn lists_after_alloc(lists: Seq<Seq<usize>>, layout: Layout) -> Seq<Seq<usize>> {
    match size_class(layout) {
        Some(class) => if lists[class as int].len() > 0 {
            lists.update(class as int, lists[class as int].drop_last())
        } else {
            lists
        },
        None => lists,
    }
}

/// The known blocks after a request: a block taken from a free list is in
/// use.
pub open spec fn blocks_after_alloc(
    lists: Seq<Seq<usize>>,
    blocks: Map<usize, KnownBlock>,
    layout: Layout,
) -> Map<usize, KnownBlock> {
    match alloc_step(lists, layout) {
        AllocStep::Block(address) => blocks.insert(
            address,
            KnownBlock { layout: granted_layout(layout), free: false },
        ),
        AllocStep::Fallback(_) => blocks,
    }
}

/// What becomes of a block that is given back.
pub open spec fn dealloc_step(ptr: usize, layout: Layout) -> DeallocStep {
    match size_class(layout) {
        Some(_) => DeallocStep::Kept,
        None => DeallocStep::Fallback(ptr, layout),
    }
}

/// The free lists after a block is given back: it is the new head of the
/// list of its size class, if it has one.
pub open spec fn lists_after_dealloc(lists: Seq<Seq<usize>>, ptr: usize, layout: Layout) -> Seq<
    Seq<usize>,
> {
    match size_class(layout) {
        Some(class) => lists.update(class as int, lists[class as int].push(ptr)),
        None => lists,
    }
}

/// The known blocks after a block is given back: one of a size class stays
/// with its class and is free, any other leaves with the fallback allocator.
pub open spec fn blocks_after_dealloc(blocks: Map<usize, KnownBlock>, ptr: usize, layout: Layout) -> Map<
    usize,
    KnownBlock,
> {
    match size_class(layout) {
        Some(_) => blocks.insert(ptr, KnownBlock { layout: granted_layout(layout), free: true }),
        None => blocks.remove(ptr),
    }
}

/// The segregated block allocator: one list of free blocks for each block
/// size. The head of a list is its last entry.
pub struct FixedSizeBlockAllocator {
    list_heads: [Vec<usize>; 9],
    heap_start: usize,
    heap_size: usize,
    initialized: bool,
    blocks: Ghost<Map<usize, KnownBlock>>,
}

impl FixedSizeBlockAllocator {
    /// The free lists, one for each size class, each with its head last.
    pub closed spec fn free_lists(&self) -> Seq<Seq<usize>> {
        Seq::new(9, |i: int| self.list_heads@[i]@)
    }

    /// The blocks that the allocator knows, by address: those on its free
    /// lists, and those it has handed out and not got back.
    pub closed spec fn blocks(&self) -> Map<usize, KnownBlock> {
        self.blocks@
    }

    /// First address of the heap; 0 before `init`.
    pub closed spec fn heap_start(&self) -> usize {
        self.heap_start
    }

    /// Size of the heap in bytes; 0 before `init`.
    pub closed spec fn heap_size(&self) -> usize {
        self.heap_size
    }

    /// Whether `init` has been called.
    pub closed spec fn initialized(&self) -> bool {
        self.initialized
    }

    /// A block of this layout at `address` lies in the heap, is aligned as
    /// its layout asks, and does not start at the null address.
    pub open spec fn in_heap(&self, address: usize, layout: Layout) -> bool {
        &&& address != NULL
        &&& address % layout.spec_align() == 0
        &&& self.heap_start() <= address
        &&& address + layout.spec_size() <= self.heap_start() + self.heap_size()
    }

    /// A block of this layout at `address` is new to the allocator: it lies
    /// in the heap and shares no byte and no address with a block that the
    /// allocator knows.
    pub open spec fn is_fresh(&self, address: usize, layout: Layout) -> bool {
        &&& self.in_heap(address, layout)
        &&& !self.blocks().contains_key(address)
        &&& forall|other: usize| #[trigger]
            self.blocks().contains_key(other) ==> blocks_apart(
                address,
                layout.spec_size(),
                other,
                self.blocks()[other].layout.spec_size(),
            )
    }

    /// The block at `ptr` is in use, and was handed out for a request of
    /// this layout or of another that is served alike.
    pub open spec fn is_live(&self, ptr: usize, layout: Layout) -> bool {
        &&& self.blocks().contains_key(ptr)
        &&& !self.blocks()[ptr].free
        &&& self.blocks()[ptr].layout == granted_layout(layout)
    }

    /// The invariant of the allocator. Every known block lies in the heap
    /// and is aligned; no two known blocks overlap; the entries of a free
    /// list are free blocks of the list's size class, each entered once.
    pub open spec fn wf(&self) -> bool {
        &&& self.free_lists().len() == 9
        &&& self.heap_start() + self.heap_size() <= usize::MAX
        &&& !self.initialized() ==> self.heap_start() == 0 && self.heap_size() == 0
        &&& forall|a: usize| #[trigger]
            self.blocks().contains_key(a) ==> self.in_heap(a, self.blocks()[a].layout)
        &&& forall|a: usize, b: usize|
            #![trigger self.blocks().contains_key(a), self.blocks().contains_key(b)]
            self.blocks().contains_key(a) && self.blocks().contains_key(b) && a != b
                ==> blocks_apart(
                a,
                self.blocks()[a].layout.spec_size(),
                b,
                self.blocks()[b].layout.spec_size(),
            )
        &&& forall|i: int, k: int|
            0 <= i < 9 && 0 <= k < self.free_lists()[i].len() ==> self.blocks().contains_key(
                #[trigger] self.free_lists()[i][k],
            ) && self.blocks()[self.free_lists()[i][k]] == (KnownBlock {
                layout: class_layout(i),
                free: true,
            })
        &&& forall|i: int| 0 <= i < 9 ==> (#[trigger] self.free_lists()[i]).no_duplicates()
    }

    /// Creates an empty allocator: it knows no block and has no heap yet.
    pub fn new() -> (allocator: Self)
        ensures
            allocator.wf(),
            !allocator.initialized(),
            allocator.blocks() == Map::<usize, KnownBlock>::empty(),
            forall|i: int| 0 <= i < 9 ==> (#[trigger] allocator.free_lists()[i]).len() == 0,
    {
        let list_heads: [Vec<usize>; 9] = [
            Vec::new(),
            Vec::new(),
            Vec::new(),
            Vec::new(),
            Vec::new(),
            Vec::new(),
            Vec::new(),
            Vec::new(),
            Vec::new(),
        ];
        FixedSizeBlockAllocator {
            list_heads,
            heap_start: 0,
            heap_size: 0,
            initialized: false,
            blocks: Ghost(Map::empty()),
        }
    }

    /// Whether `init` has been called.
    pub fn is_initialized(&self) -> (r: bool)
        ensures
            r == self.initialized(),
    {
        self.initialized
    }

    /// Initializes the allocator with the given heap bounds.
    ///
    /// The caller hands the same range to the fallback allocator as its
    /// free memory. This is done once: a second call is not admitted.
    pub fn init(&mut self, heap_start: usize, heap_size: usize)
        requires
            old(self).wf(),
            !old(self).initialized(),
            heap_start + heap_size <= usize::MAX,
        ensures
            final(self).wf(),
            final(self).initialized(),
            final(self).heap_start() == heap_start,
            final(self).heap_size() == heap_size,
            final(self).free_lists() == old(self).free_lists(),
            final(self).blocks() == old(self).blocks(),
            final(self).blocks() == Map::<usize, KnownBlock>::empty(),
    {
        proof {
            assert forall|a: usize| !old(self).blocks().contains_key(a) by {
                if old(self).blocks().contains_key(a) {
                    assert(old(self).in_heap(a, old(self).blocks()[a].layout));
                }
            }
            assert(old(self).blocks() =~= Map::<usize, KnownBlock>::empty());
            assert forall|i: int| 0 <= i < 9 implies (#[trigger] old(self).free_lists()[i]).len()
                == 0 by {
                if old(self).free_lists()[i].len() > 0 {
                    assert(old(self).blocks().contains_key(old(self).free_lists()[i][0]));
                }
            }
        }
        self.heap_start = heap_start;
        self.heap_size = heap_size;
        self.initialized = true;
        assert(self.free_lists() == old(self).free_lists());
    }

    /// Serves a request from the free list of its size class, or says what
    /// to ask of the fallback allocator: a block of the class's size where
    /// the list is empty, the request as it stands where no class is large
    /// enough.
    pub fn allocate(&mut self, layout: Layout) -> (step: AllocStep)
        requires
            old(self).wf(),
        ensures
            final(self).wf(),
            final(self).initialized() == old(self).initialized(),
            final(self).heap_start() == old(self).heap_start(),
            final(self).heap_size() == old(self).heap_size(),
            step == alloc_step(old(self).free_lists(), layout),
            final(self).free_lists() == lists_after_alloc(old(self).free_lists(), layout),
            final(self).blocks() == blocks_after_alloc(
                old(self).free_lists(),
                old(self).blocks(),
                layout,
            ),
            step matches AllocStep::Block(address) ==> old(self).blocks().contains_key(address)
                && old(self).blocks()[address].free && final(self).is_live(address, layout),
    {
        broadcast use Layout::lemma_layout_of;

        match list_index(&layout) {
            Some(index) => {
                proof {
                    lemma_size_class_is_least(layout);
                    lemma_block_sizes_are_powers_of_two(index as int);
                }
                match self.list_heads[index].pop() {
                    Some(node) => {
                        let ghost taken = KnownBlock { layout: class_layout(index as int), free: false };
                        proof {
                            let lists = old(self).free_lists();
                            assert(node == lists[index as int].last());
                            assert(old(self).blocks().contains_key(
                                lists[index as int][lists[index as int].len() - 1],
                            ));
                            assert(old(self).blocks()[node] == (KnownBlock {
                                layout: class_layout(index as int),
                                free: true,
                            }));
                            assert(old(self).in_heap(node, old(self).blocks()[node].layout));
                            self.blocks@ = self.blocks@.insert(node, taken);
                            assert forall|a: usize| #[trigger]
                                self.blocks().contains_key(a) implies self.in_heap(
                                a,
                                self.blocks()[a].layout,
                            ) by {
                                assert(old(self).blocks().contains_key(a));
                                assert(old(self).in_heap(a, old(self).blocks()[a].layout));
                            }
                            assert forall|a: usize, b: usize|
                                #![trigger self.blocks().contains_key(a), self.blocks().contains_key(b)]
                                self.blocks().contains_key(a) && self.blocks().contains_key(b) && a
                                    != b implies blocks_apart(
                                a,
                                self.blocks()[a].layout.spec_size(),
                                b,
                                self.blocks()[b].layout.spec_size(),
                            ) by {
                                assert(old(self).blocks().contains_key(a));
                                assert(old(self).blocks().contains_key(b));
                            }
                            assert(self.free_lists() =~= lists.update(
                                index as int,
                                lists[index as int].drop_last(),
                            ));
                            assert forall|i: int, k: int|
                                0 <= i < 9 && 0 <= k < self.free_lists()[i].len() implies (
                            #[trigger] self.free_lists()[i][k]) != node by {
                                if i == index {
                                    assert(lists[i][k] != lists[i][lists[i].len() - 1]);
                                } else {
                                    lemma_block_sizes_are_powers_of_two(i);
                                    assert(old(self).blocks()[lists[i][k]].layout == class_layout(
                                        i,
                                    ));
                                }
                            }
                            assert forall|i: int, k: int|
                                0 <= i < 9 && 0 <= k < self.free_lists()[i].len() implies self.blocks().contains_key(
                                #[trigger] self.free_lists()[i][k],
                            ) && self.blocks()[self.free_lists()[i][k]] == (KnownBlock {
                                layout: class_layout(i),
                                free: true,
                            }) by {
                                assert(self.free_lists()[i][k] == lists[i][k]);
                            }
                            assert forall|i: int| 0 <= i < 9 implies (
                            #[trigger] self.free_lists()[i]).no_duplicates() by {
                                assert(lists[i].no_duplicates());
                            }
                        }
                        AllocStep::Block(node)
                    },
                    None => {
                        let block_size = BLOCK_SIZES[index];
                        // Works because every block size is a power of two.
                        let block_align = block_size;
                        let layout = Layout::from_size_align(block_size, block_align).unwrap();
                        assert(self.free_lists() =~= old(self).free_lists());
                        assert(self.blocks() == old(self).blocks());
                        AllocStep::Fallback(layout)
                    },
                }
            },
            None => {
                assert(self.free_lists() =~= old(self).free_lists());
                AllocStep::Fallback(layout)
            },
        }
    }

    /// Takes the fallback allocator's answer to a request of this layout
    /// and gives the address to return: the answer, or the null address
    /// where the fallback allocator had nothing. A block that is new to the
    /// allocator is entered among the known blocks as one in use.
    pub fn fallback_alloc(&mut self, layout: Layout, answer: Option<usize>) -> (ptr: usize)
        requires
            old(self).wf(),
        ensures
            final(self).wf(),
            final(self).initialized() == old(self).initialized(),
            final(self).heap_start() == old(self).heap_start(),
            final(self).heap_size() == old(self).heap_size(),
            final(self).free_lists() == old(self).free_lists(),
            ptr == match answer {
                Some(address) => address,
                None => NULL,
            },
            final(self).blocks() == match answer {
                Some(address) => if old(self).is_fresh(address, layout) {
                    old(self).blocks().insert(address, KnownBlock { layout, free: false })
                } else {
                    old(self).blocks()
                },
                None => old(self).blocks(),
            },
    {
        match answer {
            Some(address) => {
                proof {
                    if self.is_fresh(address, layout) {
                        self.blocks@ = self.blocks@.insert(address, KnownBlock { layout, free: false });
                    }
                    assert(self.free_lists() == old(self).free_lists());
                }
                address
            },
            None => NULL,
        }
    }

    /// Takes a block back. One that a size class serves becomes the head of
    /// that class's free list; any other is to be returned to the fallback
    /// allocator.
    pub fn dealloc(&mut self, ptr: usize, layout: Layout) -> (step: DeallocStep)
        requires
            old(self).wf(),
            old(self).is_live(ptr, layout),
        ensures
            final(self).wf(),
            final(self).initialized() == old(self).initialized(),
            final(self).heap_start() == old(self).heap_start(),
            final(self).heap_size() == old(self).heap_size(),
            step == dealloc_step(ptr, layout),
            final(self).free_lists() == lists_after_dealloc(old(self).free_lists(), ptr, layout),
            final(self).blocks() == blocks_after_dealloc(old(self).blocks(), ptr, layout),
    {
        broadcast use Layout::lemma_layout_of;

        let ghost lists = old(self).free_lists();
        proof {
            assert forall|i: int, k: int| 0 <= i < 9 && 0 <= k < lists[i].len() implies (
            #[trigger] lists[i][k]) != ptr by {
                assert(old(self).blocks()[lists[i][k]].free);
            }
        }
        match list_index(&layout) {
            Some(index) => {
                proof {
                    lemma_size_class_is_least(layout);
                }
                self.list_heads[index].push(ptr);
                proof {
                    self.blocks@ = self.blocks@.insert(
                        ptr,
                        KnownBlock { layout: class_layout(index as int), free: true },
                    );
                    assert(self.free_lists() =~= lists.update(
                        index as int,
                        lists[index as int].push(ptr),
                    ));
                    assert forall|i: int, k: int|
                        0 <= i < 9 && 0 <= k < self.free_lists()[i].len() implies self.blocks().contains_key(
                        #[trigger] self.free_lists()[i][k],
                    ) && self.blocks()[self.free_lists()[i][k]] == (KnownBlock {
                        layout: class_layout(i),
                        free: true,
                    }) by {
                        if i == index && k == lists[i].len() {
                        } else {
                            assert(self.free_lists()[i][k] == lists[i][k]);
                        }
                    }
                    assert forall|i: int| 0 <= i < 9 implies (
                    #[trigger] self.free_lists()[i]).no_duplicates() by {
                        assert(lists[i].no_duplicates());
                        if i == index {
                            assert forall|x: int, y: int|
                                0 <= x < self.free_lists()[i].len() && 0 <= y
                                    < self.free_lists()[i].len() && x != y implies self.free_lists()[i][x]
                                != self.free_lists()[i][y] by {
                                if x < lists[i].len() {
                                    assert(self.free_lists()[i][x] == lists[i][x]);
                                }
                                if y < lists[i].len() {
                                    assert(self.free_lists()[i][y] == lists[i][y]);
                                }
                            }
                        }
                    }
                }
                DeallocStep::Kept
            },
            None => {
                proof {
                    self.blocks@ = self.blocks@.remove(ptr);
                    assert(self.free_lists() =~= lists);
                    assert forall|i: int, k: int|
                        0 <= i < 9 && 0 <= k < self.free_lists()[i].len() implies self.blocks().contains_key(
                        #[trigger] self.free_lists()[i][k],
                    ) && self.blocks()[self.free_lists()[i][k]] == (KnownBlock {
                        layout: class_layout(i),
                        free: true,
                    }) by {
                        assert(lists[i][k] != ptr);
                    }
                }
                DeallocStep::Fallback(ptr, layout)
            },
        }
    }
}

impl Default for FixedSizeBlockAllocator {
    /// An empty allocator, as `new` creates it.
    fn default() -> (allocator: Self)
        ensures
            allocator.wf(),
            !allocator.initialized(),
            allocator.blocks() == Map::<usize, KnownBlock>::empty(),
            forall|i: int| 0 <= i < 9 ==> (#[trigger] allocator.free_lists()[i]).len() == 0,
    {
        FixedSizeBlockAllocator::new()
    }
}

/// No block that the allocator hands out overlaps another: any two blocks
/// that it knows, free or in use, lie in the heap and share no byte. A
/// block taken from a free list was free until then.
pub proof fn lemma_known_blocks_are_apart(allocator: FixedSizeBlockAllocator, a: usize, b: usize)
    requires
        allocator.wf(),
        allocator.blocks().contains_key(a),
        allocator.blocks().contains_key(b),
        a != b,
    ensures
        allocator.in_heap(a, allocator.blocks()[a].layout),
        allocator.in_heap(b, allocator.blocks()[b].layout),
        blocks_apart(
            a,
            allocator.blocks()[a].layout.spec_size(),
            b,
            allocator.blocks()[b].layout.spec_size(),
        ),
{
}

/// Whether the block at `address` belongs to size class `class`, free or in
/// use.
pub open spec fn class_owns(blocks: Map<usize, KnownBlock>, class: int, address: usize) -> bool {
    blocks.contains_key(address) && blocks[address].layout == class_layout(class)
}

/// The entries of every free list are known blocks of the list's class.
pub open spec fn lists_hold_class_blocks(lists: Seq<Seq<usize>>, blocks: Map<usize, KnownBlock>) -> bool {
    &&& lists.len() == 9
    &&& forall|i: int, k: int|
        0 <= i < 9 && 0 <= k < lists[i].len() ==> class_owns(blocks, i, #[trigger] lists[i][k])
}

/// A block of a size class is served by that class: a request for its
/// layout falls into the class again.
pub proof fn lemma_class_layout_has_its_class(class: int)
    requires
        0 <= class < 9,
    ensures
        size_class(class_layout(class)) == Some(class as usize),
        granted_layout(class_layout(class)) == class_layout(class),
{
    broadcast use Layout::lemma_layout_of;

    reveal_with_fuel(first_class_from, 10);
}

/// A block that is given back is the next block handed out for its size
/// class, for a request of the same layout or of any other that falls into
/// the class, and the free lists are then as they were before.
pub proof fn lemma_freed_block_is_reused(
    lists: Seq<Seq<usize>>,
    ptr: usize,
    freed: Layout,
    wanted: Layout,
)
    requires
        lists.len() == 9,
        size_class(freed) is Some,
        size_class(wanted) == size_class(freed),
    ensures
        alloc_step(lists_after_dealloc(lists, ptr, freed), wanted) == AllocStep::Block(ptr),
        lists_after_alloc(lists_after_dealloc(lists, ptr, freed), wanted) == lists,
{
    lemma_size_class_is_least(freed);
    let class = size_class(freed).unwrap() as int;
    let pushed = lists_after_dealloc(lists, ptr, freed);
    assert(pushed[class].last() == ptr);
    assert(pushed[class].drop_last() =~= lists[class]);
    assert(lists_after_alloc(pushed, wanted) =~= lists);
}

/// A request that exceeds the largest block size in size or in alignment
/// goes to the fallback allocator as it stands, whatever the free lists
/// hold, and leaves them and the known blocks untouched.
pub proof fn lemma_oversized_request_bypasses_free_lists(
    lists: Seq<Seq<usize>>,
    blocks: Map<usize, KnownBlock>,
    layout: Layout,
)
    requires
        layout.spec_size() > 2048 || layout.spec_align() > 2048,
    ensures
        alloc_step(lists, layout) == AllocStep::Fallback(layout),
        lists_after_alloc(lists, layout) == lists,
        blocks_after_alloc(lists, blocks, layout) == blocks,
{
    lemma_size_class_is_least(layout);
}

/// A block stays with its size class for good: neither a request nor the
/// return of a block takes a block away from the class that owns it.
pub proof fn lemma_blocks_stay_with_their_class(
    lists: Seq<Seq<usize>>,
    blocks: Map<usize, KnownBlock>,
    ptr: usize,
    layout: Layout,
    class: int,
    address: usize,
)
    requires
        0 <= class < 9,
        lists_hold_class_blocks(lists, blocks),
        class_owns(blocks, class, address),
    ensures
        class_owns(blocks_after_alloc(lists, blocks, layout), class, address),
        blocks.contains_key(ptr) && blocks[ptr].layout == granted_layout(layout) ==> class_owns(
            blocks_after_dealloc(blocks, ptr, layout),
            class,
            address,
        ),
{
    lemma_size_class_is_least(layout);
    lemma_class_layout_has_its_class(class);
    match size_class(layout) {
        Some(requested) => {
            if lists[requested as int].len() > 0 {
                let head = lists[requested as int].last();
                assert(head == lists[requested as int][lists[requested as int].len() - 1]);
                assert(class_owns(blocks, requested as int, head));
            }
        },
        None => {},
    }
}

} // verus!
