use enigma_kernel::allocator::fixed_size_block::{
    is_power_of_two, list_index, AllocStep, DeallocStep, FixedSizeBlockAllocator, Layout,
    BLOCK_SIZES, NULL,
};
use std::collections::HashMap;

const HEAP_START: usize = 0x4444_0000;
const HEAP_SIZE: usize = 100 * 1024;

/// A heap as the kernel sees it: the block allocator, a fallback allocator
/// that hands out memory front to back and takes whole blocks back (the
/// last one it gave joins the untouched memory again), and what was
/// written to the memory.
struct Heap {
    blocks: FixedSizeBlockAllocator,
    next: usize,
    end: usize,
    spare: Vec<(usize, usize)>,
    fallback_requests: Vec<(usize, usize)>,
    returned: Vec<(usize, Layout)>,
    memory: HashMap<usize, u64>,
}

impl Heap {
    fn new(start: usize, size: usize) -> Heap {
        let mut blocks = FixedSizeBlockAllocator::new();
        assert!(!blocks.is_initialized());
        blocks.init(start, size);
        assert!(blocks.is_initialized());
        Heap {
            blocks,
            next: start,
            end: start + size,
            spare: Vec::new(),
            fallback_requests: Vec::new(),
            returned: Vec::new(),
            memory: HashMap::new(),
        }
    }

    fn fallback(&mut self, layout: Layout) -> Option<usize> {
        self.fallback_requests.push((layout.size(), layout.align()));
        let fits = |&(address, size): &(usize, usize)| {
            address % layout.align() == 0 && size >= layout.size()
        };
        if let Some(found) = self.spare.iter().position(fits) {
            return Some(self.spare.remove(found).0);
        }
        let address = self.next.div_ceil(layout.align()) * layout.align();
        if address + layout.size().max(8) > self.end {
            return None;
        }
        self.next = address + layout.size().max(8);
        Some(address)
    }

    fn allocate(&mut self, layout: Layout) -> usize {
        match self.blocks.allocate(layout) {
            AllocStep::Block(address) => address,
            AllocStep::Fallback(request) => {
                let answer = self.fallback(request);
                self.blocks.fallback_alloc(request, answer)
            }
        }
    }

    fn dealloc(&mut self, ptr: usize, layout: Layout) {
        match self.blocks.dealloc(ptr, layout) {
            DeallocStep::Kept => {}
            DeallocStep::Fallback(address, layout) => {
                if address + layout.size().max(8) == self.next {
                    self.next = address;
                } else {
                    self.spare.push((address, layout.size()));
                }
                self.returned.push((address, layout));
            }
        }
    }

    fn boxed(&mut self, value: u64) -> usize {
        let ptr = self.allocate(layout(8, 8));
        assert_ne!(ptr, NULL);
        self.memory.insert(ptr, value);
        ptr
    }

    fn read(&self, ptr: usize) -> u64 {
        self.memory[&ptr]
    }

    fn drop_box(&mut self, ptr: usize) {
        self.memory.remove(&ptr);
        self.dealloc(ptr, layout(8, 8));
    }
}

fn layout(size: usize, align: usize) -> Layout {
    Layout::from_size_align(size, align).unwrap()
}

#[test]
fn block_sizes_ascend_in_powers_of_two() {
    assert_eq!(BLOCK_SIZES, [8, 16, 32, 64, 128, 256, 512, 1024, 2048]);
    for size in BLOCK_SIZES {
        assert!(is_power_of_two(size));
    }
    assert_eq!(NULL, 0);
}

#[test]
fn powers_of_two() {
    assert!(!is_power_of_two(0));
    assert!(is_power_of_two(1));
    assert!(is_power_of_two(2));
    assert!(!is_power_of_two(3));
    assert!(is_power_of_two(4096));
    assert!(!is_power_of_two(4097));
    assert!(!is_power_of_two(6));
    assert!(is_power_of_two(1 << (usize::BITS - 1)));
    assert!(!is_power_of_two(usize::MAX));
}

#[test]
fn layouts_are_checked() {
    let l = Layout::from_size_align(24, 8).unwrap();
    assert_eq!((l.size(), l.align()), (24, 8));
    assert_eq!(Layout::from_size_align(0, 1).map(|l| (l.size(), l.align())), Some((0, 1)));
    assert_eq!(Layout::from_size_align(8, 0), None);
    assert_eq!(Layout::from_size_align(8, 3), None);
    assert_eq!(Layout::from_size_align(8, 24), None);
    let max = isize::MAX as usize;
    assert!(Layout::from_size_align(max, 1).is_some());
    assert_eq!(Layout::from_size_align(max + 1, 1), None);
    assert!(Layout::from_size_align(max - 7, 8).is_some());
    assert_eq!(Layout::from_size_align(max - 6, 8), None);
    assert!(Layout::from_size_align(0, max + 1).is_some());
    assert_eq!(Layout::from_size_align(1, max + 1), None);
    assert!(Layout::from_size_align(max / 2, (max + 1) / 2).is_some());
    // The same answers as the standard library gives.
    for (size, align) in
        [(24, 8), (0, 1), (8, 0), (8, 3), (max, 1), (max - 6, 8), (0, max + 1), (1, max + 1)]
    {
        assert_eq!(
            Layout::from_size_align(size, align).is_some(),
            std::alloc::Layout::from_size_align(size, align).is_ok()
        );
    }
}

#[test]
fn size_classes() {
    assert_eq!(list_index(&layout(0, 1)), Some(0));
    assert_eq!(list_index(&layout(1, 1)), Some(0));
    assert_eq!(list_index(&layout(8, 8)), Some(0));
    assert_eq!(list_index(&layout(9, 1)), Some(1));
    assert_eq!(list_index(&layout(16, 4)), Some(1));
    assert_eq!(list_index(&layout(17, 16)), Some(2));
    assert_eq!(list_index(&layout(4, 64)), Some(3));
    assert_eq!(list_index(&layout(100, 2)), Some(4));
    assert_eq!(list_index(&layout(129, 1)), Some(5));
    assert_eq!(list_index(&layout(512, 512)), Some(6));
    assert_eq!(list_index(&layout(513, 8)), Some(7));
    assert_eq!(list_index(&layout(1025, 8)), Some(8));
    assert_eq!(list_index(&layout(2048, 2048)), Some(8));
    assert_eq!(list_index(&layout(2049, 1)), None);
    assert_eq!(list_index(&layout(8, 4096)), None);
    assert_eq!(list_index(&layout(1 << 20, 8)), None);
}

#[test]
fn empty_list_asks_for_a_whole_block() {
    let mut blocks = FixedSizeBlockAllocator::new();
    blocks.init(HEAP_START, HEAP_SIZE);
    assert_eq!(blocks.allocate(layout(1, 1)), AllocStep::Fallback(layout(8, 8)));
    assert_eq!(blocks.allocate(layout(20, 4)), AllocStep::Fallback(layout(32, 32)));
    assert_eq!(blocks.allocate(layout(3, 256)), AllocStep::Fallback(layout(256, 256)));
    assert_eq!(blocks.allocate(layout(2048, 1)), AllocStep::Fallback(layout(2048, 2048)));
}

#[test]
fn fallback_answer_is_passed_on() {
    let mut blocks = FixedSizeBlockAllocator::new();
    blocks.init(HEAP_START, HEAP_SIZE);
    assert_eq!(blocks.fallback_alloc(layout(8, 8), Some(HEAP_START + 64)), HEAP_START + 64);
    assert_eq!(blocks.fallback_alloc(layout(8, 8), None), NULL);
    assert_eq!(blocks.fallback_alloc(layout(4096, 4096), None), 0);
}

#[test]
fn allocator_without_a_heap_has_nothing_to_give() {
    let mut blocks = FixedSizeBlockAllocator::new();
    assert!(!blocks.is_initialized());
    let request = match blocks.allocate(layout(8, 8)) {
        AllocStep::Fallback(request) => request,
        AllocStep::Block(address) => panic!("no block can be free: {:#x}", address),
    };
    // A fallback allocator that was given no memory has no answer.
    assert_eq!(blocks.fallback_alloc(request, None), NULL);
}

#[test]
fn default_allocator_is_a_new_one() {
    let mut blocks = FixedSizeBlockAllocator::default();
    assert!(!blocks.is_initialized());
    assert_eq!(blocks.allocate(layout(8, 8)), AllocStep::Fallback(layout(8, 8)));
}

#[test]
fn class_reuse() {
    let mut heap = Heap::new(HEAP_START, HEAP_SIZE);
    for (size, align) in [(8, 8), (24, 8), (100, 4), (2048, 16), (1, 1)] {
        let first = heap.allocate(layout(size, align));
        assert_ne!(first, NULL);
        heap.dealloc(first, layout(size, align));
        let asked = heap.fallback_requests.len();
        let second = heap.allocate(layout(size, align));
        assert_eq!(second, first);
        assert_eq!(heap.fallback_requests.len(), asked);
        heap.dealloc(second, layout(size, align));
    }
}

#[test]
fn class_reuse_across_layouts_of_one_class() {
    let mut heap = Heap::new(HEAP_START, HEAP_SIZE);
    let first = heap.allocate(layout(17, 1));
    heap.dealloc(first, layout(17, 1));
    // 32 bytes aligned to 32 fall into the same class as 17 bytes.
    let second = heap.allocate(layout(32, 32));
    assert_eq!(second, first);
    assert_eq!(second % 32, 0);
    // A request of another class does not get the block.
    heap.dealloc(second, layout(32, 32));
    let other = heap.allocate(layout(16, 16));
    assert_ne!(other, first);
}

#[test]
fn free_list_gives_the_last_block_first() {
    let mut heap = Heap::new(HEAP_START, HEAP_SIZE);
    let a = heap.allocate(layout(64, 64));
    let b = heap.allocate(layout(64, 64));
    let c = heap.allocate(layout(64, 64));
    assert!(a != b && b != c && a != c);
    heap.dealloc(a, layout(64, 64));
    heap.dealloc(c, layout(64, 64));
    heap.dealloc(b, layout(64, 64));
    assert_eq!(heap.allocate(layout(64, 64)), b);
    assert_eq!(heap.allocate(layout(64, 64)), c);
    assert_eq!(heap.allocate(layout(64, 64)), a);
    assert_eq!(heap.fallback_requests.len(), 3);
}

#[test]
fn boundary_routing() {
    let mut heap = Heap::new(HEAP_START, HEAP_SIZE);
    // All free lists are empty.
    let big = layout(4000, 8);
    assert_eq!(heap.blocks.allocate(big), AllocStep::Fallback(big));
    let ptr = heap.allocate(big);
    assert_ne!(ptr, NULL);
    assert_eq!(heap.fallback_requests.last(), Some(&(4000, 8)));
    let aligned = layout(16, 4096);
    assert_eq!(heap.blocks.allocate(aligned), AllocStep::Fallback(aligned));
    let ptr2 = heap.allocate(aligned);
    assert_eq!(ptr2 % 4096, 0);
    // Free lists that hold blocks are not consulted either.
    let small = heap.allocate(layout(2048, 2048));
    heap.dealloc(small, layout(2048, 2048));
    assert_eq!(heap.blocks.allocate(layout(2049, 8)), AllocStep::Fallback(layout(2049, 8)));
    assert_eq!(heap.allocate(layout(2048, 2048)), small);
}

#[test]
fn oversized_blocks_return_to_the_fallback() {
    let mut heap = Heap::new(HEAP_START, HEAP_SIZE);
    let big = layout(5000, 16);
    let ptr = heap.allocate(big);
    assert_eq!(heap.blocks.dealloc(ptr, big), DeallocStep::Fallback(ptr, big));
    let ptr = heap.allocate(big);
    heap.dealloc(ptr, big);
    assert_eq!(heap.returned, vec![(ptr, big)]);
    // The block is on no free list: the next request asks the fallback again.
    assert_eq!(heap.blocks.allocate(big), AllocStep::Fallback(big));
    assert_eq!(heap.allocate(big), ptr);
    assert_eq!(heap.blocks.allocate(layout(2048, 8)), AllocStep::Fallback(layout(2048, 2048)));
}

#[test]
fn small_blocks_are_kept() {
    let mut heap = Heap::new(HEAP_START, HEAP_SIZE);
    let ptr = heap.allocate(layout(8, 8));
    assert_eq!(heap.blocks.dealloc(ptr, layout(8, 8)), DeallocStep::Kept);
    assert!(heap.returned.is_empty());
}

#[test]
fn simple_allocation() {
    let mut heap = Heap::new(HEAP_START, HEAP_SIZE);
    let heap_value_1 = heap.boxed(41);
    let heap_value_2 = heap.boxed(13);
    assert_ne!(heap_value_1, heap_value_2);
    assert_eq!(heap.read(heap_value_1), 41);
    assert_eq!(heap.read(heap_value_2), 13);
    // Unrelated allocations and deallocations leave both alone.
    let a = heap.allocate(layout(100, 8));
    let b = heap.boxed(7);
    heap.drop_box(b);
    heap.dealloc(a, layout(100, 8));
    let c = heap.boxed(99);
    assert_eq!(heap.read(heap_value_1), 41);
    assert_eq!(heap.read(heap_value_2), 13);
    assert_eq!(heap.read(c), 99);
}

#[test]
fn large_vec() {
    // A vector of 1000 numbers grows by doubling its buffer.
    let mut heap = Heap::new(HEAP_START, HEAP_SIZE);
    let n: u64 = 1000;
    let mut capacity: usize = 0;
    let mut buffer = NULL;
    let mut values: Vec<u64> = Vec::new();
    for i in 0..n {
        if values.len() == capacity {
            let grown = if capacity == 0 { 4 } else { capacity * 2 };
            let fresh = heap.allocate(layout(grown * 8, 8));
            assert_ne!(fresh, NULL);
            if capacity != 0 {
                heap.dealloc(buffer, layout(capacity * 8, 8));
            }
            buffer = fresh;
            capacity = grown;
        }
        values.push(i);
    }
    assert_eq!(capacity, 1024);
    assert_eq!(values.iter().sum::<u64>(), (n - 1) * n / 2);
    // Buffers above the largest block size went back to the fallback.
    assert_eq!(
        heap.returned.iter().map(|(_, l)| l.size()).collect::<Vec<usize>>(),
        vec![4096]
    );
}

#[test]
fn many_boxes() {
    let mut heap = Heap::new(HEAP_START, HEAP_SIZE);
    for i in 0..HEAP_SIZE {
        let x = heap.boxed(i as u64);
        assert_eq!(heap.read(x), i as u64);
        heap.drop_box(x);
    }
    // One block served every box.
    assert_eq!(heap.fallback_requests, vec![(8, 8)]);
}

#[test]
fn many_boxes_long_lived() {
    let mut heap = Heap::new(HEAP_START, HEAP_SIZE);
    let long_lived = heap.boxed(1);
    for i in 0..HEAP_SIZE {
        let x = heap.boxed(i as u64);
        assert_ne!(x, long_lived);
        assert_eq!(heap.read(x), i as u64);
        heap.drop_box(x);
        let size = 1 + i % 3000;
        let other = heap.allocate(layout(size, 8));
        assert_ne!(other, NULL);
        assert_ne!(other, long_lived);
        heap.dealloc(other, layout(size, 8));
    }
    assert_eq!(heap.read(long_lived), 1);
}

#[test]
fn exhaustion_is_reported() {
    // A heap of 16 blocks of 64 bytes.
    let mut heap = Heap::new(0x10_0000, 1024);
    let mut given: Vec<usize> = Vec::new();
    for _ in 0..16 {
        let ptr = heap.allocate(layout(64, 64));
        assert_ne!(ptr, NULL);
        assert!(ptr >= 0x10_0000 && ptr + 64 <= 0x10_0000 + 1024);
        assert_eq!(ptr % 64, 0);
        for other in &given {
            assert!(ptr + 64 <= *other || *other + 64 <= ptr);
        }
        given.push(ptr);
    }
    assert_eq!(heap.allocate(layout(64, 64)), NULL);
    assert_eq!(heap.allocate(layout(64, 64)), NULL);
    assert_eq!(heap.allocate(layout(8, 8)), NULL);
    assert_eq!(heap.allocate(layout(4096, 8)), NULL);
    // A block that comes back can be given out again, to its own class only.
    heap.dealloc(given[3], layout(64, 64));
    assert_eq!(heap.allocate(layout(8, 8)), NULL);
    assert_eq!(heap.allocate(layout(33, 1)), given[3]);
    assert_eq!(heap.allocate(layout(64, 64)), NULL);
}
