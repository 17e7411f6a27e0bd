//! The kernel heap allocator: a bump allocator over one address range.
//!
//! Addresses are plain `usize` values; the allocator hands out the start of
//! each block and never reuses memory. The next free address is kept in the
//! allocator, with 0 meaning that no block has been handed out yet, in which
//! case allocation starts at the beginning of the heap.

use vstd::prelude::*;

verus! {

/// The allocator as a mathematical value.
pub struct AllocatorState {
    /// First address of the heap.
    pub heap_start: nat,
    /// One past the last address of the heap.
    pub heap_end: nat,
    /// Whether `init` gave the allocator a heap.
    pub initialized: bool,
    /// Where the next block would start, or 0 before the first allocation.
    pub next: nat,
}

/// Where the next block starts.
pub open spec fn next_block_start(s: AllocatorState) -> nat {
    if s.next == 0 {
        s.heap_start
    } else {
        s.next
    }
}

/// The allocator after `init(start, size)`: the heap is `[start, start + size)`;
/// the next free address is left as it was.
pub open spec fn init_spec(s: AllocatorState, start: nat, size: nat) -> AllocatorState {
    AllocatorState { heap_start: start, heap_end: start + size, initialized: true, next: s.next }
}

/// The allocator after a request for `size` bytes, and the block's start
/// address if the request is granted. An uninitialized allocator refuses
/// every request and does not change. Otherwise the block starts at
/// `next_block_start`; it is granted exactly when it ends within the heap,
/// and then the next block starts where it ends.
pub open spec fn allocate_spec(s: AllocatorState, size: nat) -> (AllocatorState, Option<nat>) {
    if !s.initialized {
        (s, None)
    } else {
        let start = next_block_start(s);
        if start + size <= s.heap_end {
            (AllocatorState { next: (start + size) as nat, ..s }, Some(start))
        } else {
            (AllocatorState { next: start, ..s }, None)
        }
    }
}

/// An initialized allocator whose next block lies within its heap.
pub open spec fn allocator_wf(s: AllocatorState) -> bool {
    s.initialized ==> s.heap_start <= next_block_start(s) <= s.heap_end
}

/// A bump allocator over one heap range.
///
/// Each allocator keeps its own next free address: two allocators hand out
/// blocks independently of each other. (A kernel that keeps this address in
/// one global shared by every allocator would have a second allocator go on
/// where the first stopped; here it starts at its own heap.)
pub struct SlabAllocator {
    heap_start: usize,
    heap_end: usize,
    initialized: bool,
    next: usize,
}

impl View for SlabAllocator {
    type V = AllocatorState;

    closed spec fn view(&self) -> AllocatorState {
        AllocatorState {
            heap_start: self.heap_start as nat,
            heap_end: self.heap_end as nat,
            initialized: self.initialized,
            next: self.next as nat,
        }
    }
}

impl SlabAllocator {
    /// An allocator without a heap: it refuses every request until `init`.
    pub fn new() -> (r: SlabAllocator)
        ensures
            r@ == (AllocatorState { heap_start: 0, heap_end: 0, initialized: false, next: 0 }),
    {
        SlabAllocator { heap_start: 0, heap_end: 0, initialized: false, next: 0 }
    }

    /// Gives the allocator the heap `[start, start + size)`.
    pub fn init(&mut self, start: usize, size: usize)
        requires
            start + size <= usize::MAX,
        ensures
            final(self)@ == init_spec(old(self)@, start as nat, size as nat),
    {
        self.heap_start = start;
        self.heap_end = start + size;
        self.initialized = true;
    }

    /// Hands out a block of `size` bytes: its start address, or `None` when
    /// the allocator has no heap or the block would end past the heap.
    pub fn allocate(&mut self, size: usize) -> (r: Option<usize>)
        ensures
            final(self)@ == allocate_spec(old(self)@, size as nat).0,
            allocate_spec(old(self)@, size as nat).1 == match r {
                Some(a) => Some(a as nat),
                None => None::<nat>,
            },
    {
        if !self.initialized {
            return None;
        }
        if self.next == 0 {
            self.next = self.heap_start;
        }
        let alloc_start = self.next;
        match alloc_start.checked_add(size) {
            Some(alloc_end) => {
                if alloc_end > self.heap_end {
                    None
                } else {
                    self.next = alloc_end;
                    Some(alloc_start)
                }
            },
            None => None,
        }
    }

    /// Gives a block back. A bump allocator does not reuse memory, so
    /// nothing changes.
    pub fn deallocate(&mut self, addr: usize)
        ensures
            final(self)@ == old(self)@,
    {
    }
}

/// A fresh allocator given a heap is well formed, and its first block
/// starts at the beginning of the heap.
pub proof fn lemma_init_fresh(start: nat, size: nat)
    ensures
        allocator_wf(
            init_spec(AllocatorState { heap_start: 0, heap_end: 0, initialized: false, next: 0 }, start, size),
        ),
        next_block_start(
            init_spec(AllocatorState { heap_start: 0, heap_end: 0, initialized: false, next: 0 }, start, size),
        ) == start,
{
}

/// Allocation keeps the allocator well formed, and every granted block lies
/// within the heap.
pub proof fn lemma_blocks_within_heap(s: AllocatorState, size: nat)
    requires
        allocator_wf(s),
    ensures
        allocator_wf(allocate_spec(s, size).0),
        allocate_spec(s, size).1 matches Some(a) ==> s.heap_start <= a && a + size <= s.heap_end,
{
}

/// A granted block starts where the next block was to start, and the next
/// block then starts exactly where the granted one ends: no gap, no overlap.
pub proof fn lemma_granted_block_is_contiguous(s: AllocatorState, size: nat)
    ensures
        allocate_spec(s, size).1 matches Some(a) ==> a == next_block_start(s) && next_block_start(
            allocate_spec(s, size).0,
        ) == a + size,
{
}

/// Two blocks granted one after the other do not overlap: the second starts
/// where the first ends, or later.
pub proof fn lemma_blocks_disjoint(s: AllocatorState, size1: nat, size2: nat)
    requires
        allocator_wf(s),
    ensures
        ({
            let (s1, r1) = allocate_spec(s, size1);
            let (s2, r2) = allocate_spec(s1, size2);
            r1 is Some && r2 is Some ==> r1.unwrap() + size1 <= r2.unwrap()
        }),
{
}

/// The next block never moves back: every later block starts at or after
/// the end of every block granted before it.
pub proof fn lemma_next_block_never_moves_back(s: AllocatorState, size: nat)
    requires
        allocator_wf(s),
    ensures
        next_block_start(s) <= next_block_start(allocate_spec(s, size).0),
        allocate_spec(s, size).1 matches Some(a) ==> a + size <= next_block_start(
            allocate_spec(s, size).0,
        ),
{
}

/// A refused request changes nothing that a later request sees: the next
/// request starts at the same address.
pub proof fn lemma_refusal_keeps_next_block(s: AllocatorState, size: nat)
    requires
        allocate_spec(s, size).1 is None,
    ensures
        next_block_start(allocate_spec(s, size).0) == next_block_start(s),
        allocate_spec(s, size).0.heap_start == s.heap_start,
        allocate_spec(s, size).0.heap_end == s.heap_end,
{
}

/// The allocator after the requests, made in order.
pub open spec fn run_allocations(s: AllocatorState, sizes: Seq<nat>) -> AllocatorState
    decreases sizes.len(),
{
    if sizes.len() == 0 {
        s
    } else {
        allocate_spec(run_allocations(s, sizes.drop_last()), sizes.last()).0
    }
}

/// What the `i`-th of the requests, made in order, returns.
pub open spec fn allocation_result(s: AllocatorState, sizes: Seq<nat>, i: int) -> Option<nat> {
    allocate_spec(run_allocations(s, sizes.take(i)), sizes[i]).1
}

proof fn lemma_run_allocations(s: AllocatorState, sizes: Seq<nat>)
    requires
        allocator_wf(s),
        s.initialized,
    ensures
        ({
            let t = run_allocations(s, sizes);
            &&& allocator_wf(t)
            &&& t.initialized
            &&& t.heap_start == s.heap_start
            &&& t.heap_end == s.heap_end
            &&& next_block_start(s) <= next_block_start(t)
        }),
        forall|i: int|
            0 <= i < sizes.len() ==> (#[trigger] allocation_result(s, sizes, i) matches Some(a) ==> (
            next_block_start(s) <= a && a + sizes[i] <= next_block_start(run_allocations(s, sizes)))),
        forall|i: int, j: int|
            0 <= i < j < sizes.len() ==> (#[trigger] allocation_result(s, sizes, i) matches Some(a) ==> (
            #[trigger] allocation_result(s, sizes, j) matches Some(b) ==> a + sizes[i] <= b)),
    decreases sizes.len(),
{
    if sizes.len() > 0 {
        let prefix = sizes.drop_last();
        let k = sizes.len() - 1;
        lemma_run_allocations(s, prefix);
        let t = run_allocations(s, prefix);
        lemma_blocks_within_heap(t, sizes.last());
        lemma_next_block_never_moves_back(t, sizes.last());
        assert(sizes.take(k) =~= prefix);
        assert forall|i: int| 0 <= i < k implies allocation_result(s, sizes, i) == allocation_result(
            s,
            prefix,
            i,
        ) by {
            assert(sizes.take(i) =~= prefix.take(i));
            assert(sizes[i] == prefix[i]);
        }
        assert(allocation_result(s, sizes, k) == allocate_spec(t, sizes.last()).1);
    }
}

/// Over any sequence of requests after `init` gives a fresh allocator the
/// heap `[start, start + size)`: every granted block lies within the heap and
/// starts at or after the end of every block granted before it, so no two
/// blocks overlap; and a request is refused exactly when its block would end
/// past the heap.
pub proof fn lemma_allocations_after_init(start: nat, size: nat, sizes: Seq<nat>)
    ensures
        ({
            let s = init_spec(
                AllocatorState { heap_start: 0, heap_end: 0, initialized: false, next: 0 },
                start,
                size,
            );
            &&& forall|i: int|
                0 <= i < sizes.len() ==> (#[trigger] allocation_result(s, sizes, i) matches Some(a)
                ==> start <= a && a + sizes[i] <= start + size)
            &&& forall|i: int, j: int|
                0 <= i < j < sizes.len() ==> (#[trigger] allocation_result(s, sizes, i) matches Some(a)
                ==> (#[trigger] allocation_result(s, sizes, j) matches Some(b) ==> a + sizes[i] <= b))
            &&& forall|i: int|
                0 <= i < sizes.len() ==> ((#[trigger] allocation_result(s, sizes, i) is None) <==> next_block_start(
                run_allocations(s, sizes.take(i))) + sizes[i] > start + size)
        }),
{
    let s = init_spec(
        AllocatorState { heap_start: 0, heap_end: 0, initialized: false, next: 0 },
        start,
        size,
    );
    lemma_run_allocations(s, sizes);
    assert forall|i: int| 0 <= i < sizes.len() implies (#[trigger] allocation_result(s, sizes, i) matches Some(a)
        ==> start <= a && a + sizes[i] <= start + size) by {
        lemma_run_allocations(s, sizes.take(i));
        lemma_blocks_within_heap(run_allocations(s, sizes.take(i)), sizes[i]);
    }
    assert forall|i: int| 0 <= i < sizes.len() implies ((#[trigger] allocation_result(s, sizes, i) is None) <==> next_block_start(
        run_allocations(s, sizes.take(i))) + sizes[i] > start + size) by {
        lemma_run_allocations(s, sizes.take(i));
    }
}

/// The total size of the requests.
pub open spec fn total_size(sizes: Seq<nat>) -> nat
    decreases sizes.len(),
{
    if sizes.len() == 0 {
        0
    } else {
        total_size(sizes.drop_last()) + sizes.last()
    }
}

/// Requests whose total size fits in the rest of the heap are all granted,
/// each block right after the previous one: the `i`-th block starts after
/// the sizes of the requests before it.
pub proof fn lemma_requests_that_fit_are_packed(s: AllocatorState, sizes: Seq<nat>)
    requires
        allocator_wf(s),
        s.initialized,
        next_block_start(s) + total_size(sizes) <= s.heap_end,
    ensures
        next_block_start(run_allocations(s, sizes)) == next_block_start(s) + total_size(sizes),
        forall|i: int|
            0 <= i < sizes.len() ==> #[trigger] allocation_result(s, sizes, i) == Some(
                (next_block_start(s) + total_size(sizes.take(i))) as nat,
            ),
    decreases sizes.len(),
{
    if sizes.len() > 0 {
        let prefix = sizes.drop_last();
        let k = sizes.len() - 1;
        lemma_requests_that_fit_are_packed(s, prefix);
        lemma_run_allocations(s, prefix);
        let t = run_allocations(s, prefix);
        lemma_granted_block_is_contiguous(t, sizes.last());
        assert(sizes.take(k) =~= prefix);
        assert forall|i: int| 0 <= i < sizes.len() implies #[trigger] allocation_result(s, sizes, i)
            == Some((next_block_start(s) + total_size(sizes.take(i))) as nat) by {
            if i < k {
                assert(sizes.take(i) =~= prefix.take(i));
                assert(sizes[i] == prefix[i]);
                assert(allocation_result(s, sizes, i) == allocation_result(s, prefix, i));
            }
        }
    }
}

/// After `init` gives a fresh allocator the heap `[start, start + size)`,
/// requests whose total size fits in the heap are all granted, packed from
/// the start of the heap in request order.
pub proof fn lemma_fresh_heap_packs_requests(start: nat, size: nat, sizes: Seq<nat>)
    requires
        total_size(sizes) <= size,
    ensures
        forall|i: int|
            0 <= i < sizes.len() ==> #[trigger] allocation_result(
                init_spec(
                    AllocatorState { heap_start: 0, heap_end: 0, initialized: false, next: 0 },
                    start,
                    size,
                ),
                sizes,
                i,
            ) == Some(start + total_size(sizes.take(i))),
{
    let s = init_spec(
        AllocatorState { heap_start: 0, heap_end: 0, initialized: false, next: 0 },
        start,
        size,
    );
    lemma_requests_that_fit_are_packed(s, sizes);
}

} // verus!
