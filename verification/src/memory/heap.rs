//! The kernel heap: a bump allocator for early boot and size-class slab
//! caches.
//!
//! Allocations are described by a size and an alignment (the two parts of
//! a memory layout) and handed out as addresses.

use crate::arch::{VirtAddr, PAGE_SIZE};
use vstd::prelude::*;

verus! {

/// Bytes of bookkeeping at the start of each slab page.
pub const SLAB_HEADER_SIZE: usize = 32;
/// Heap size the kernel starts with.
pub const INITIAL_HEAP_SIZE: u64 = 0x4_0000;

/// `x` rounded up to a multiple of `align`.
pub open spec fn align_up(x: int, align: int) -> int {
    ((x + align - 1) / align) * align
}

/// Rounding up to a multiple of a positive `align` moves a natural number
/// up by less than `align`.
pub proof fn lemma_align_up_bounds(x: int, align: int)
    requires
        x >= 0,
        align > 0,
    ensures
        x <= align_up(x, align) <= x + align - 1,
        align_up(x, align) % align == 0,
{
    let q = (x + align - 1) / align;
    assert(q * align <= x + align - 1 && q * align > x - 1 && (q * align) % align == 0) by (nonlinear_arith)
        requires
            q == (x + align - 1) / align,
            align > 0,
            x >= 0,
    ;
}

/// A bump allocator over `[start, end)`.
pub struct Heap {
    start: VirtAddr,
    end: VirtAddr,
    next: u64,
    allocated: usize,
}

/// What `Heap::allocate` of `size` bytes aligned to `align` does: nothing
/// for an alignment above a page or when the heap is exhausted; otherwise
/// the next address moves to the end of the block at the next aligned
/// address, which is handed out unless it is 0.
pub open spec fn allocate_outcome(before: Heap, after: Heap, size: usize, align: usize, r: Option<u64>) -> bool {
    let aligned = align_up(before.next_addr() as int, align as int);
    &&& after.start_addr() == before.start_addr()
    &&& after.end_addr() == before.end_addr()
    &&& if align > 4096 || aligned + size > before.end_addr() {
        &&& r is None
        &&& after.next_addr() == before.next_addr()
        &&& after.allocated_bytes() == before.allocated_bytes()
    } else {
        &&& r == (if aligned == 0 { None::<u64> } else { Some(aligned as u64) })
        &&& after.next_addr() == aligned + size
        &&& after.allocated_bytes() == vstd::wrapping::usize_specs::wrapping_add(before.allocated_bytes(), size)
    }
}

impl Heap {
    /// First address of the heap.
    pub closed spec fn start_addr(&self) -> u64 {
        self.start.0
    }

    /// First address after the heap.
    pub closed spec fn end_addr(&self) -> u64 {
        self.end.0
    }

    /// The next free address.
    pub closed spec fn next_addr(&self) -> u64 {
        self.next
    }

    /// Bytes handed out and not returned (counted with wrap-around).
    pub closed spec fn allocated_bytes(&self) -> usize {
        self.allocated
    }

    /// The next free address lies in the heap.
    pub open spec fn wf(&self) -> bool {
        self.start_addr() <= self.next_addr() <= self.end_addr()
    }

    /// An empty heap at address 0.
    pub fn new() -> (h: Self)
        ensures
            h.wf(),
            h.start_addr() == 0,
            h.end_addr() == 0,
            h.next_addr() == 0,
            h.allocated_bytes() == 0,
    {
        Heap { start: VirtAddr::new(0), end: VirtAddr::new(0), next: 0, allocated: 0 }
    }

    /// Place the heap at `[start, start + size)`, empty.
    pub fn init(&mut self, start: VirtAddr, size: u64)
        requires
            start.0 + size <= u64::MAX,
        ensures
            final(self).wf(),
            final(self).start_addr() == start.0,
            final(self).end_addr() == start.0 + size,
            final(self).next_addr() == start.0,
            final(self).allocated_bytes() == 0,
    {
        self.start = start;
        self.end = VirtAddr::new(start.as_u64() + size);
        self.next = start.as_u64();
        self.allocated = 0;
    }

    /// Hand out `size` bytes at the next address aligned to `align`;
    /// nothing for an alignment above a page or when the heap is
    /// exhausted. An allocation that would start at address 0 is consumed
    /// but not handed out.
    pub fn allocate(&mut self, size: usize, align: usize) -> (r: Option<u64>)
        requires
            old(self).wf(),
            align > 0,
            align <= 4096 ==> old(self).next_addr() + align <= u64::MAX
                && align_up(old(self).next_addr() as int, align as int) + size <= u64::MAX,
        ensures
            final(self).wf(),
            allocate_outcome(*old(self), *final(self), size, align, r),
            final(self).next_addr() >= old(self).next_addr(),
            r matches Some(a) ==> old(self).next_addr() <= a && a + size == final(self).next_addr(),
    {
        if align > PAGE_SIZE as usize {
            return None;
        }
        let current = self.next;
        let a = align as u64;
        proof {
            lemma_align_up_bounds(current as int, a as int);
        }
        let aligned = ((current + a - 1) / a) * a;
        let new_next = aligned + size as u64;
        if new_next > self.end.as_u64() {
            return None;
        }
        self.next = new_next;
        self.allocated = self.allocated.wrapping_add(size);
        if aligned == 0 {
            None
        } else {
            Some(aligned)
        }
    }

    /// Account for `size` bytes given back; the space itself is not reused.
    pub fn deallocate(&mut self, ptr: u64, size: usize)
        ensures
            final(self).start_addr() == old(self).start_addr(),
            final(self).end_addr() == old(self).end_addr(),
            final(self).next_addr() == old(self).next_addr(),
            final(self).allocated_bytes() == vstd::wrapping::usize_specs::wrapping_sub(old(self).allocated_bytes(), size),
    {
        self.allocated = self.allocated.wrapping_sub(size);
    }

    /// Bytes in use.
    pub fn used(&self) -> (n: usize)
        ensures
            n == self.allocated_bytes(),
    {
        self.allocated
    }

    /// Size of the heap in bytes.
    pub fn size(&self) -> (n: u64)
        requires
            self.wf(),
        ensures
            n == self.end_addr() - self.start_addr(),
    {
        self.end.as_u64() - self.start.as_u64()
    }

    /// Bytes not yet handed out.
    pub fn available(&self) -> (n: u64)
        requires
            self.wf(),
        ensures
            n == self.end_addr() - self.next_addr(),
    {
        self.end.as_u64() - self.next
    }

    /// `init` has placed the heap at a non-zero address.
    pub fn is_initialized(&self) -> (b: bool)
        ensures
            b == (self.start_addr() != 0),
    {
        self.start.as_u64() != 0
    }
}

/// Blocks handed out by successive `Heap::allocate` calls never overlap:
/// `hs[i]` is the heap before call `i` and `hs[i + 1]` after it, and every
/// block ends at or before the start of every later one.
pub proof fn lemma_heap_calls_disjoint(hs: Seq<Heap>, sizes: Seq<usize>, aligns: Seq<usize>, rs: Seq<Option<u64>>)
    requires
        hs.len() == rs.len() + 1,
        sizes.len() == rs.len(),
        aligns.len() == rs.len(),
        forall|i: int| 0 <= i < rs.len() ==> #[trigger] aligns[i] > 0 && allocate_outcome(hs[i], hs[i + 1], sizes[i], aligns[i], rs[i]),
    ensures
        forall|i: int, j: int| 0 <= i < j < rs.len() ==> (#[trigger] rs[i] matches Some(a) ==> (#[trigger] rs[j] matches Some(b) ==> a + sizes[i] <= b)),
{
    assert forall|i: int| 0 <= i < rs.len() implies hs[i].next_addr() <= #[trigger] hs[i + 1].next_addr()
        && (rs[i] matches Some(a) ==> hs[i].next_addr() <= a && a + sizes[i] == hs[i + 1].next_addr()) by {
        assert(aligns[i] > 0 && allocate_outcome(hs[i], hs[i + 1], sizes[i], aligns[i], rs[i]));
        lemma_align_up_bounds(hs[i].next_addr() as int, aligns[i] as int);
    }
    assert forall|i: int, j: int| 0 <= i < j < rs.len() implies (#[trigger] rs[i] matches Some(a) ==> (#[trigger] rs[j] matches Some(b) ==> a + sizes[i] <= b)) by {
        lemma_heap_nexts_grow(hs, rs.len() as int, i + 1, j);
        assert(hs[i].next_addr() <= hs[i + 1].next_addr());
        assert(hs[j].next_addr() <= hs[j + 1].next_addr());
    }
}

proof fn lemma_heap_nexts_grow(hs: Seq<Heap>, n: int, a: int, b: int)
    requires
        hs.len() == n + 1,
        forall|i: int| 0 <= i < n ==> hs[i].next_addr() <= #[trigger] hs[i + 1].next_addr(),
        0 <= a <= b <= n,
    ensures
        hs[a].next_addr() <= hs[b].next_addr(),
    decreases b - a,
{
    if a < b {
        lemma_heap_nexts_grow(hs, n, a, b - 1);
        let k = b - 1;
        assert(hs[k].next_addr() <= hs[k + 1].next_addr());
    }
}

/// Two allocations in a row that both succeed hand out disjoint ranges,
/// the second after the first.
pub proof fn lemma_bump_disjoint(next: int, size1: int, align1: int, size2: int, align2: int)
    requires
        next >= 0,
        size1 >= 0,
        size2 >= 0,
        align1 > 0,
        align2 > 0,
    ensures
        align_up(next, align1) + size1 <= align_up(align_up(next, align1) + size1, align2),
{
    lemma_align_up_bounds(next, align1);
    lemma_align_up_bounds(align_up(next, align1) + size1, align2);
}

/// Bytes of the kernel's static heap, the one the global allocator
/// serves from.
pub const STATIC_HEAP_SIZE: usize = 0x40_0000;

/// The global allocator's bump pointer over the static heap, as an offset
/// from its start; memory is never given back.
pub struct BumpAllocator {
    next: usize,
}

impl BumpAllocator {
    /// Offset of the first byte not yet handed out.
    pub closed spec fn next_offset(&self) -> usize {
        self.next
    }

    #[verifier::type_invariant]
    closed spec fn within_heap(&self) -> bool {
        self.next <= STATIC_HEAP_SIZE
    }

    /// Nothing handed out yet.
    pub fn new() -> (b: Self)
        ensures
            b.next_offset() == 0,
    {
        BumpAllocator { next: 0 }
    }

    /// Offset of `size` bytes at the next offset aligned to `align`, when
    /// they fit in the static heap; otherwise nothing, and nothing changes.
    pub fn allocate(&mut self, size: usize, align: usize) -> (r: Option<usize>)
        requires
            align > 0,
        ensures
            final(self).next_offset() <= STATIC_HEAP_SIZE,
            ({
                let aligned = align_up(old(self).next_offset() as int, align as int);
                if aligned + size <= STATIC_HEAP_SIZE {
                    &&& r == Some(aligned as usize)
                    &&& final(self).next_offset() == aligned + size
                } else {
                    &&& r is None
                    &&& final(self).next_offset() == old(self).next_offset()
                }
            }),
    {
        proof {
            use_type_invariant(&*self);
            lemma_align_up_bounds(self.next as int, align as int);
        }
        let cur = self.next as u128;
        let a = align as u128;
        let aligned = ((cur + a - 1) / a) * a;
        let next = aligned + size as u128;
        if next > STATIC_HEAP_SIZE as u128 {
            return None;
        }
        self.next = next as usize;
        Some(aligned as usize)
    }
}

/// The kernel's heap.
pub struct KernelHeap {
    pub inner: Heap,
}

/// Heap usage.
#[derive(Debug, Clone, Copy)]
pub struct HeapStats {
    pub used: usize,
    pub total: usize,
    pub available: usize,
}

impl KernelHeap {
    /// An empty heap.
    pub fn new() -> (h: Self)
        ensures
            h.inner.wf(),
            h.inner.start_addr() == 0,
            h.inner.end_addr() == 0,
            h.inner.next_addr() == 0,
            h.inner.allocated_bytes() == 0,
    {
        KernelHeap { inner: Heap::new() }
    }

    /// Place the heap at `[start, start + size)`.
    pub fn init(&mut self, start: VirtAddr, size: u64)
        requires
            start.0 + size <= u64::MAX,
        ensures
            final(self).inner.wf(),
            final(self).inner.start_addr() == start.0,
            final(self).inner.end_addr() == start.0 + size,
            final(self).inner.next_addr() == start.0,
            final(self).inner.allocated_bytes() == 0,
    {
        self.inner.init(start, size);
    }

    /// Heap usage.
    pub fn stats(&self) -> (s: HeapStats)
        requires
            self.inner.wf(),
        ensures
            s.used == self.inner.allocated_bytes(),
            s.total == (self.inner.end_addr() - self.inner.start_addr()) as usize,
            s.available == (self.inner.end_addr() - self.inner.next_addr()) as usize,
    {
        HeapStats { used: self.inner.used(), total: self.inner.size() as usize, available: self.inner.available() as usize }
    }
}

/// A page of objects of one size class.
#[derive(Debug, Clone)]
pub struct SlabPage {
    /// The page's first address.
    pub start: u64,
    /// Objects handed out.
    pub used: usize,
    /// Free objects, newest last.
    pub free: Vec<u64>,
}

/// Objects of one size, carved from slab pages.
pub struct SlabCache {
    size: usize,
    slabs: Vec<SlabPage>,
    objects_per_slab: usize,
}

/// The index of the first slab with a free object.
pub open spec fn first_with_free(slabs: Seq<SlabPage>) -> int
    decreases slabs.len(),
{
    if slabs.len() == 0 {
        -1
    } else if slabs[0].free@.len() > 0 {
        0
    } else {
        let k = first_with_free(slabs.drop_first());
        if k < 0 { -1 } else { k + 1 }
    }
}

/// What taking an object from slab pages `old` does: nothing when no
/// page has a free object; else the first such page hands out its newest
/// free object (none if that object is address 0) and counts it used.
pub open spec fn slab_alloc_outcome(old: Seq<SlabPage>, new: Seq<SlabPage>, r: Option<u64>) -> bool {
    &&& new.len() == old.len()
    &&& first_with_free(old) < 0 ==> r is None && new == old
    &&& first_with_free(old) >= 0 ==> {
        let k = first_with_free(old);
        let p = old[k];
        let obj = p.free@.last();
        &&& r == (if obj == 0 { None::<u64> } else { Some(obj) })
        &&& new[k].start == p.start
        &&& new[k].used == p.used + 1
        &&& new[k].free@ == p.free@.drop_last()
        &&& forall|i: int| 0 <= i < new.len() && i != k ==> #[trigger] new[i] == old[i]
    }
}

/// The index of the first cache whose objects hold `s` bytes, or 10.
pub open spec fn cache_index(s: usize) -> int {
    if s <= 8 { 0 } else if s <= 16 { 1 } else if s <= 32 { 2 } else if s <= 64 { 3 } else if s <= 128 { 4 }
    else if s <= 256 { 5 } else if s <= 512 { 6 } else if s <= 1024 { 7 } else if s <= 2048 { 8 } else if s <= 4096 { 9 } else { 10 }
}

impl SlabCache {
    /// The object size.
    pub closed spec fn object_size(&self) -> usize {
        self.size
    }

    /// Objects per slab page.
    pub closed spec fn per_slab(&self) -> usize {
        self.objects_per_slab
    }

    /// The slab pages.
    pub closed spec fn pages(&self) -> Seq<SlabPage> {
        self.slabs@
    }

    /// A cache for `size`-byte objects with no pages and no per-page count.
    pub fn new(size: usize) -> (c: Self)
        ensures
            c.object_size() == size,
            c.per_slab() == 0,
            c.pages().len() == 0,
    {
        SlabCache { size, slabs: Vec::new(), objects_per_slab: 0 }
    }

    /// A cache for `size`-byte objects, with as many per page as fit after
    /// the page's bookkeeping.
    pub fn new_for_size(size: usize) -> (c: Self)
        requires
            size > 0,
        ensures
            c.object_size() == size,
            c.per_slab() == (4096 - 32) / (size as int),
            c.pages().len() == 0,
    {
        let objects_per_slab = (PAGE_SIZE as usize - SLAB_HEADER_SIZE) / size;
        SlabCache { size, slabs: Vec::new(), objects_per_slab }
    }

    /// Take a free object from the first page that has one.
    pub fn allocate(&mut self) -> (r: Option<u64>)
        requires
            forall|i: int| 0 <= i < old(self).pages().len() ==> (#[trigger] old(self).pages()[i]).used < usize::MAX,
        ensures
            final(self).object_size() == old(self).object_size(),
            final(self).per_slab() == old(self).per_slab(),
            final(self).pages().len() == old(self).pages().len(),
            slab_alloc_outcome(old(self).pages(), final(self).pages(), r),
    {
        proof {
            assert(self.slabs@.subrange(0, self.slabs@.len() as int) =~= self.slabs@);
            assert forall|j: int| 0 <= j < self.slabs@.len() implies (#[trigger] self.slabs@[j]).used < usize::MAX by {
                assert(old(self).pages()[j] == self.slabs@[j]);
            }
        }
        let mut i: usize = 0;
        while i < self.slabs.len()
            invariant
                i <= self.slabs@.len(),
                self.slabs@ == old(self).slabs@,
                self.size == old(self).size,
                self.objects_per_slab == old(self).objects_per_slab,
                forall|j: int| 0 <= j < i ==> (#[trigger] self.slabs@[j]).free@.len() == 0,
                first_with_free(self.slabs@) == (if first_with_free(self.slabs@.subrange(i as int, self.slabs@.len() as int)) < 0 { -1 } else { first_with_free(self.slabs@.subrange(i as int, self.slabs@.len() as int)) + i }),
                forall|j: int| 0 <= j < self.slabs@.len() ==> (#[trigger] self.slabs@[j]).used < usize::MAX,
            decreases self.slabs@.len() - i,
        {
            if self.slabs[i].free.len() > 0 {
                let ghost before = self.slabs@;
                proof {
                    let rest = before.subrange(i as int, before.len() as int);
                    assert(rest[0] == before[i as int]);
                    assert(first_with_free(rest) == 0);
                }
                let mut page = self.slabs.remove(i);
                let obj = match page.free.pop() {
                    Some(o) => o,
                    None => 0,
                };
                page.used = page.used + 1;
                self.slabs.insert(i, page);
                proof {
                    assert forall|j: int| 0 <= j < self.slabs@.len() && j != i implies #[trigger] self.slabs@[j] == before[j] by {
                        if j < i {
                            assert(self.slabs@[j] == before[j]);
                        }
                    }
                }
                if obj == 0 {
                    return None;
                }
                return Some(obj);
            }
            proof {
                let rest = self.slabs@.subrange(i as int, self.slabs@.len() as int);
                assert(rest.drop_first() =~= self.slabs@.subrange(i + 1, self.slabs@.len() as int));
            }
            i += 1;
        }
        proof {
            assert(self.slabs@.subrange(i as int, self.slabs@.len() as int).len() == 0);
        }
        None
    }
}

/// The size class an allocation of `size` bytes at `align` uses.
pub open spec fn size_class(size: usize, align: usize) -> usize {
    if size >= align { size } else { align }
}

/// The object sizes of the slab allocator's caches, smallest first.
pub open spec fn cache_sizes() -> Seq<usize> {
    seq![8usize, 16, 32, 64, 128, 256, 512, 1024, 2048, 4096]
}

/// Slab caches for the power-of-two sizes from 8 to 4096 bytes.
pub struct SlabAllocator {
    caches: Vec<SlabCache>,
}

impl SlabAllocator {
    /// The caches, smallest size first.
    pub closed spec fn caches(&self) -> Seq<SlabCache> {
        self.caches@
    }

    /// Ten caches, one per size in `cache_sizes`.
    pub open spec fn wf(&self) -> bool {
        &&& self.caches().len() == 10
        &&& forall|i: int| 0 <= i < 10 ==> (#[trigger] self.caches()[i]).object_size() == cache_sizes()[i]
    }

    /// Ten empty caches.
    pub fn new() -> (a: Self)
        ensures
            a.wf(),
            forall|i: int| 0 <= i < 10 ==> (#[trigger] a.caches()[i]).pages().len() == 0,
    {
        let mut caches: Vec<SlabCache> = Vec::new();
        caches.push(SlabCache::new_for_size(8));
        caches.push(SlabCache::new_for_size(16));
        caches.push(SlabCache::new_for_size(32));
        caches.push(SlabCache::new_for_size(64));
        caches.push(SlabCache::new_for_size(128));
        caches.push(SlabCache::new_for_size(256));
        caches.push(SlabCache::new_for_size(512));
        caches.push(SlabCache::new_for_size(1024));
        caches.push(SlabCache::new_for_size(2048));
        caches.push(SlabCache::new_for_size(4096));
        SlabAllocator { caches }
    }

    /// Allocate from the first cache whose objects hold the larger of
    /// `size` and `align`; nothing above 4096 bytes.
    pub fn allocate(&mut self, size: usize, align: usize) -> (r: Option<u64>)
        requires
            old(self).wf(),
            forall|c: int, i: int| 0 <= c < 10 && 0 <= i < old(self).caches()[c].pages().len() ==> (#[trigger] old(self).caches()[c].pages()[i]).used < usize::MAX,
        ensures
            final(self).wf(),
            size_class(size, align) > 4096 ==> r is None && final(self).caches() == old(self).caches(),
            size_class(size, align) <= 4096 ==> {
                let k = cache_index(size_class(size, align));
                &&& slab_alloc_outcome(old(self).caches()[k].pages(), final(self).caches()[k].pages(), r)
                &&& forall|i: int| 0 <= i < 10 && i != k ==> #[trigger] final(self).caches()[i] == old(self).caches()[i]
            },
    {
        let s = if size >= align { size } else { align };
        let mut i: usize = 0;
        while i < self.caches.len()
            invariant
                self.caches@ == old(self).caches@,
                old(self).wf(),
                i <= 10,
                s == size_class(size, align),
                forall|j: int| 0 <= j < i ==> (#[trigger] cache_sizes()[j]) < s,
                forall|c: int, k: int| 0 <= c < 10 && 0 <= k < old(self).caches()[c].pages().len() ==> (#[trigger] old(self).caches()[c].pages()[k]).used < usize::MAX,
            decreases 10 - i,
        {
            if self.caches[i].size >= s {
                let ghost before = self.caches@;
                let mut cache = self.caches.remove(i);
                proof {
                    assert(cache.pages() == before[i as int].pages());
                    assert forall|k: int| 0 <= k < cache.pages().len() implies (#[trigger] cache.pages()[k]).used < usize::MAX by {
                        assert(old(self).caches()[i as int].pages()[k].used < usize::MAX);
                    }
                }
                let r = cache.allocate();
                self.caches.insert(i, cache);
                proof {
                    assert(i as int == cache_index(s));
                    assert forall|k: int| 0 <= k < 10 && k != i implies #[trigger] self.caches()[k] == old(self).caches()[k] by {
                        assert(self.caches()[k] == before[k]);
                    }
                    assert forall|k: int| 0 <= k < 10 implies (#[trigger] self.caches()[k]).object_size() == cache_sizes()[k] by {
                        if k != i {
                            assert(self.caches()[k] == before[k]);
                        }
                    }
                }
                return r;
            }
            i += 1;
        }
        proof {
            assert(cache_sizes()[9] == 4096);
        }
        None
    }
}

} // verus!
