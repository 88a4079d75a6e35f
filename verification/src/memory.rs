//! Memory management: physical frames, page tables, address-space
//! regions and the kernel heap.

pub mod error;
pub mod frame;
pub mod page_table;
pub mod region;
pub mod heap;
pub mod mapper;

use crate::arch::{BootParams, PhysAddr, VirtAddr, PAGE_SIZE};
use crate::ids::IdCounter;
use crate::memory::error::MemoryError;
use crate::memory::frame::{block_bytes, first_nonempty, free_frames, AllocatorStats, FrameAllocator, PhysFrame, MAX_ORDER};
use crate::memory::heap::{HeapStats, KernelHeap};
use crate::memory::page_table::PageTable;
use crate::memory::region::{region_fits, regions_overlap, MemoryRegion, RegionList, VMALLOC_START};
use vstd::prelude::*;

verus! {

/// Physical address where the frame allocator's range begins.
pub const MANAGED_BASE: u64 = 0x10_0000;
/// Bytes of physical memory the frame allocator manages.
pub const MANAGED_SIZE: u64 = 0x1000_0000;
/// Bytes of virtual space the `vmalloc` area spans.
pub const VMALLOC_SPAN: u64 = 0x1000_0000_0000;

/// Identifier of an address space.
pub type AddressSpaceId = u64;

/// An address space: its root table, regions and heap.
pub struct AddressSpace {
    pub id: AddressSpaceId,
    pml4_frame: PhysFrame,
    regions: RegionList,
    heap: KernelHeap,
}

impl AddressSpace {
    /// The identifier.
    pub closed spec fn ident(&self) -> u64 {
        self.id
    }

    /// The frame of the root (PML4) table.
    pub closed spec fn root(&self) -> PhysFrame {
        self.pml4_frame
    }

    /// The region list.
    pub closed spec fn region_list(&self) -> RegionList {
        self.regions
    }

    /// The heap.
    pub closed spec fn kernel_heap(&self) -> KernelHeap {
        self.heap
    }

    /// The region list is well formed, and so is the heap.
    pub open spec fn wf(&self) -> bool {
        &&& self.region_list().wf()
        &&& self.kernel_heap().inner.wf()
    }

    /// A user address space with a fresh identifier drawn from `ids`.
    pub fn new(ids: &mut IdCounter, pml4_frame: PhysFrame) -> (s: Self)
        ensures
            s.wf(),
            s.ident() == old(ids).peek(),
            final(ids).peek() == (if old(ids).peek() == u64::MAX { 0 } else { (old(ids).peek() + 1) as u64 }),
            s.root() == pml4_frame,
            s.region_list()@.len() == 0,
            s.kernel_heap().inner.allocated_bytes() == 0,
    {
        let id = ids.next_id();
        AddressSpace { id, pml4_frame, regions: RegionList::new(), heap: KernelHeap::new() }
    }

    /// The kernel's address space, identifier 0.
    pub fn kernel_new(pml4_frame: PhysFrame) -> (s: Self)
        ensures
            s.wf(),
            s.ident() == 0,
            s.root() == pml4_frame,
            s.region_list()@.len() == 0,
            s.kernel_heap().inner.allocated_bytes() == 0,
    {
        AddressSpace { id: 0, pml4_frame, regions: RegionList::new(), heap: KernelHeap::new() }
    }

    /// The identifier.
    pub fn id(&self) -> (i: AddressSpaceId)
        ensures
            i == self.ident(),
    {
        self.id
    }

    /// The frame of the root table.
    pub fn pml4_frame(&self) -> (f: PhysFrame)
        ensures
            f == self.root(),
    {
        self.pml4_frame
    }

    /// The region list.
    pub fn regions(&self) -> (r: &RegionList)
        ensures
            *r == self.region_list(),
    {
        &self.regions
    }

    /// The region list, to work on in place.
    pub fn regions_mut(&mut self) -> (r: &mut RegionList)
        ensures
            *r == old(self).region_list(),
            final(self).region_list() == *final(r),
            final(self).ident() == old(self).ident(),
            final(self).root() == old(self).root(),
            final(self).kernel_heap() == old(self).kernel_heap(),
    {
        &mut self.regions
    }

    /// Add a region (see `RegionList::add`).
    pub fn add_region(&mut self, region: MemoryRegion) -> (r: Result<(), MemoryError>)
        requires
            old(self).wf(),
            region_fits(region),
        ensures
            final(self).wf(),
            final(self).ident() == old(self).ident(),
            final(self).root() == old(self).root(),
            old(self).region_list()@.len() >= 32 ==> r == Err::<(), MemoryError>(MemoryError::AddressSpaceFull)
                && final(self).region_list()@ == old(self).region_list()@,
            old(self).region_list()@.len() < 32 && (exists|i: int| 0 <= i < old(self).region_list()@.len() && regions_overlap(#[trigger] old(self).region_list()@[i], region))
                ==> r == Err::<(), MemoryError>(MemoryError::RegionOverlap) && final(self).region_list()@ == old(self).region_list()@,
            old(self).region_list()@.len() < 32 && !(exists|i: int| 0 <= i < old(self).region_list()@.len() && regions_overlap(#[trigger] old(self).region_list()@[i], region))
                ==> r == Ok::<(), MemoryError>(()) && final(self).region_list()@ == crate::memory::region::order_regions(old(self).region_list()@.push(region)),
            crate::memory::region::sorted_by_start(old(self).region_list()@) ==> crate::memory::region::sorted_by_start(final(self).region_list()@),
            crate::memory::region::no_overlaps(old(self).region_list()@) ==> crate::memory::region::no_overlaps(final(self).region_list()@),
    {
        self.regions.add(region)
    }

    /// Remove the first region starting at `start` (see `RegionList::remove`).
    pub fn remove_region(&mut self, start: VirtAddr) -> (r: Option<MemoryRegion>)
        requires
            old(self).wf(),
        ensures
            final(self).wf(),
            final(self).ident() == old(self).ident(),
            final(self).root() == old(self).root(),
            match r {
                Some(reg) => exists|i: int| 0 <= i < old(self).region_list()@.len() && #[trigger] old(self).region_list()@[i] == reg
                    && reg.start == start
                    && (forall|k: int| 0 <= k < i ==> old(self).region_list()@[k].start != start)
                    && final(self).region_list()@ == old(self).region_list()@.remove(i),
                None => (forall|k: int| 0 <= k < old(self).region_list()@.len() ==> #[trigger] old(self).region_list()@[k].start != start)
                    && final(self).region_list()@ == old(self).region_list()@,
            },
            crate::memory::region::sorted_by_start(old(self).region_list()@) ==> crate::memory::region::sorted_by_start(final(self).region_list()@),
            crate::memory::region::no_overlaps(old(self).region_list()@) ==> crate::memory::region::no_overlaps(final(self).region_list()@),
    {
        self.regions.remove(start)
    }

    /// The first region containing `addr` (see `RegionList::find`).
    pub fn find_region(&self, addr: VirtAddr) -> (r: Option<&MemoryRegion>)
        requires
            self.wf(),
        ensures
            match r {
                Some(reg) => exists|i: int| 0 <= i < self.region_list()@.len() && #[trigger] self.region_list()@[i] == *reg
                    && reg.start.0 <= addr.0 && addr.0 < reg.start.0 + reg.size
                    && (forall|k: int| 0 <= k < i ==> !(self.region_list()@[k].start.0 <= addr.0 && addr.0 < self.region_list()@[k].start.0 + self.region_list()@[k].size)),
                None => forall|k: int| 0 <= k < self.region_list()@.len() ==> !(#[trigger] self.region_list()@[k].start.0 <= addr.0
                    && addr.0 < self.region_list()@[k].start.0 + self.region_list()@[k].size),
            },
    {
        self.regions.find(addr)
    }

    /// Place the heap at `[start, start + size)`.
    pub fn init_heap(&mut self, start: VirtAddr, size: u64)
        requires
            old(self).wf(),
            start.0 + size <= u64::MAX,
        ensures
            final(self).wf(),
            final(self).ident() == old(self).ident(),
            final(self).root() == old(self).root(),
            final(self).region_list() == old(self).region_list(),
            final(self).kernel_heap().inner.start_addr() == start.0,
            final(self).kernel_heap().inner.end_addr() == start.0 + size,
            final(self).kernel_heap().inner.next_addr() == start.0,
            final(self).kernel_heap().inner.allocated_bytes() == 0,
    {
        self.heap.init(start, size);
    }

    /// Heap usage.
    pub fn heap_stats(&self) -> (s: HeapStats)
        requires
            self.wf(),
        ensures
            s.used == self.kernel_heap().inner.allocated_bytes(),
            s.total == (self.kernel_heap().inner.end_addr() - self.kernel_heap().inner.start_addr()) as usize,
            s.available == (self.kernel_heap().inner.end_addr() - self.kernel_heap().inner.next_addr()) as usize,
    {
        self.heap.stats()
    }
}

/// The system's memory: frames, the kernel address space and the
/// `vmalloc` area.
pub struct MemoryManager {
    frame_allocator: FrameAllocator,
    kernel_space: AddressSpace,
    vmalloc_start: VirtAddr,
    vmalloc_next: u64,
    space_ids: IdCounter,
}

impl MemoryManager {
    /// The frame allocator.
    pub closed spec fn frames(&self) -> FrameAllocator {
        self.frame_allocator
    }

    /// The kernel address space.
    pub closed spec fn kernel(&self) -> AddressSpace {
        self.kernel_space
    }

    /// The start of the `vmalloc` area.
    pub closed spec fn vmalloc_base(&self) -> u64 {
        self.vmalloc_start.0
    }

    /// The next free `vmalloc` address.
    pub closed spec fn vmalloc_cursor(&self) -> u64 {
        self.vmalloc_next
    }

    /// The identifier the next user address space gets.
    pub closed spec fn next_space_id(&self) -> u64 {
        self.space_ids.peek()
    }

    /// The parts are well formed and the `vmalloc` cursor lies in its area.
    pub open spec fn wf(&self) -> bool {
        &&& self.frames().wf()
        &&& self.kernel().wf()
        &&& VMALLOC_START <= self.vmalloc_cursor() <= VMALLOC_START + VMALLOC_SPAN
        &&& self.vmalloc_base() == VMALLOC_START
    }

    /// A manager whose frame allocator covers 256 MiB from 1 MiB and whose
    /// kernel space has root `kernel_pml4`.
    pub fn new(kernel_pml4: PhysFrame, boot_params: &BootParams) -> (r: Result<Self, MemoryError>)
        ensures
            r matches Ok(m) && m.wf() && m.kernel().ident() == 0 && m.kernel().root() == kernel_pml4
                && m.frames().buddy.base() == MANAGED_BASE
                && m.frames().buddy.total() == MANAGED_SIZE / 4096
                && free_frames(m.frames().buddy.lists()) == MANAGED_SIZE / 4096
                && m.vmalloc_cursor() == VMALLOC_START
                && m.next_space_id() == 1,
    {
        let mut frame_allocator = FrameAllocator::new();
        frame_allocator.init(PhysAddr::new(MANAGED_BASE), MANAGED_SIZE);
        let kernel_space = AddressSpace::kernel_new(kernel_pml4);
        Ok(MemoryManager {
            frame_allocator,
            kernel_space,
            vmalloc_start: VirtAddr::new(VMALLOC_START),
            vmalloc_next: VMALLOC_START,
            space_ids: IdCounter::new(),
        })
    }

    /// The frame allocator, to work on in place.
    pub fn frame_allocator(&mut self) -> (r: &mut FrameAllocator)
        ensures
            *r == old(self).frames(),
            final(self).frames() == *final(r),
            final(self).kernel() == old(self).kernel(),
            final(self).vmalloc_base() == old(self).vmalloc_base(),
            final(self).vmalloc_cursor() == old(self).vmalloc_cursor(),
            final(self).next_space_id() == old(self).next_space_id(),
    {
        &mut self.frame_allocator
    }

    /// The kernel address space, to work on in place.
    pub fn kernel_space_mut(&mut self) -> (r: &mut AddressSpace)
        ensures
            *r == old(self).kernel(),
            final(self).kernel() == *final(r),
            final(self).frames() == old(self).frames(),
            final(self).vmalloc_base() == old(self).vmalloc_base(),
            final(self).vmalloc_cursor() == old(self).vmalloc_cursor(),
            final(self).next_space_id() == old(self).next_space_id(),
    {
        &mut self.kernel_space
    }

    /// The kernel address space.
    pub fn kernel_space(&self) -> (s: &AddressSpace)
        ensures
            *s == self.kernel(),
    {
        &self.kernel_space
    }

    /// Allocate a block of `order` (see `FrameAllocator::allocate`).
    pub fn allocate_frame(&mut self, order: usize) -> (r: Result<PhysFrame, MemoryError>)
        requires
            old(self).wf(),
        ensures
            final(self).wf(),
            final(self).kernel() == old(self).kernel(),
            final(self).vmalloc_cursor() == old(self).vmalloc_cursor(),
            order > MAX_ORDER ==> r == Err::<PhysFrame, MemoryError>(MemoryError::InvalidOrder),
            order <= MAX_ORDER ==> (r is Err <==> first_nonempty(old(self).frames().buddy.lists(), order as int) > 20),
            r matches Ok(f) ==> f.order == order && f.start.0 == old(self).frames().buddy.lists()[first_nonempty(old(self).frames().buddy.lists(), order as int)].last(),
    {
        self.frame_allocator.allocate(order)
    }

    /// Allocate one base page.
    pub fn allocate_page(&mut self) -> (r: Result<PhysFrame, MemoryError>)
        requires
            old(self).wf(),
        ensures
            final(self).wf(),
            final(self).kernel() == old(self).kernel(),
            final(self).vmalloc_cursor() == old(self).vmalloc_cursor(),
            final(self).next_space_id() == old(self).next_space_id(),
            r is Err <==> first_nonempty(old(self).frames().buddy.lists(), 0) > 20,
            r is Err ==> r == Err::<PhysFrame, MemoryError>(MemoryError::OutOfFrames),
            r matches Ok(f) ==> f.order == 0 && f.start.0 == old(self).frames().buddy.lists()[first_nonempty(old(self).frames().buddy.lists(), 0)].last(),
    {
        self.frame_allocator.allocate_page()
    }

    /// Return a block (see `FrameAllocator::deallocate`).
    pub fn deallocate_frame(&mut self, frame: PhysFrame) -> (r: Result<(), MemoryError>)
        requires
            old(self).wf(),
            frame.order <= MAX_ORDER,
            frame.start.0 + block_bytes(frame.order as nat) <= u64::MAX,
        ensures
            final(self).wf(),
            final(self).kernel() == old(self).kernel(),
            final(self).vmalloc_cursor() == old(self).vmalloc_cursor(),
            r == Ok::<(), MemoryError>(()),
            ({
                let b = old(self).frames().buddy;
                let m = crate::memory::frame::merge(b.lists(), b.base(), b.limit(), frame.start.0, frame.order as int);
                final(self).frames().buddy.lists() == crate::memory::frame::push_at(m.0, m.2, m.1)
            }),
    {
        self.frame_allocator.deallocate(frame)
    }

    /// A new user address space whose root table is a freshly allocated
    /// page (which the caller zeroes before use).
    pub fn alloc_address_space(&mut self) -> (r: Result<AddressSpace, MemoryError>)
        requires
            old(self).wf(),
        ensures
            final(self).wf(),
            final(self).kernel() == old(self).kernel(),
            r is Err <==> first_nonempty(old(self).frames().buddy.lists(), 0) > 20,
            r is Err ==> r == Err::<AddressSpace, MemoryError>(MemoryError::OutOfFrames),
            r matches Ok(s) ==> s.ident() == old(self).next_space_id() && s.region_list()@.len() == 0
                && s.root().order == 0
                && s.root().start.0 == old(self).frames().buddy.lists()[first_nonempty(old(self).frames().buddy.lists(), 0)].last(),
    {
        let pml4_frame = match self.allocate_page() {
            Ok(f) => f,
            Err(e) => return Err(e),
        };
        Ok(AddressSpace::new(&mut self.space_ids, pml4_frame))
    }

    /// Give back an address space's root table frame.
    pub fn free_address_space(&mut self, space: AddressSpace) -> (r: Result<(), MemoryError>)
        requires
            old(self).wf(),
            space.root().order <= MAX_ORDER,
            space.root().start.0 + block_bytes(space.root().order as nat) <= u64::MAX,
        ensures
            final(self).wf(),
            final(self).kernel() == old(self).kernel(),
            r == Ok::<(), MemoryError>(()),
            ({
                let b = old(self).frames().buddy;
                let m = crate::memory::frame::merge(b.lists(), b.base(), b.limit(), space.root().start.0, space.root().order as int);
                final(self).frames().buddy.lists() == crate::memory::frame::push_at(m.0, m.2, m.1)
            }),
    {
        self.deallocate_frame(space.pml4_frame)
    }

    /// Reserve `size` bytes, rounded up to pages, of the `vmalloc` area;
    /// nothing once the area is exhausted.
    pub fn vmalloc(&mut self, size: u64) -> (r: Option<VirtAddr>)
        requires
            old(self).wf(),
            size <= u64::MAX - 4095,
            old(self).vmalloc_cursor() + ((size + 4095) / 4096) * 4096 <= u64::MAX,
        ensures
            final(self).wf(),
            final(self).frames() == old(self).frames(),
            final(self).kernel() == old(self).kernel(),
            ({
                let aligned = ((size + 4095) / 4096) * 4096;
                if old(self).vmalloc_cursor() + aligned > VMALLOC_START + VMALLOC_SPAN {
                    r is None && final(self).vmalloc_cursor() == old(self).vmalloc_cursor()
                } else {
                    r == Some(VirtAddr(old(self).vmalloc_cursor())) && final(self).vmalloc_cursor() == old(self).vmalloc_cursor() + aligned
                }
            }),
    {
        let aligned_size = ((size + PAGE_SIZE - 1) / PAGE_SIZE) * PAGE_SIZE;
        let current = self.vmalloc_next;
        let new_next = current + aligned_size;
        if new_next > self.vmalloc_start.as_u64() + VMALLOC_SPAN {
            return None;
        }
        self.vmalloc_next = new_next;
        Some(VirtAddr::new(current))
    }

    /// Frame usage counters.
    pub fn allocator_stats(&self) -> (s: AllocatorStats)
        requires
            self.wf(),
            self.frames().buddy.used() * 4096 <= u64::MAX,
        ensures
            s.total_frames == self.frames().buddy.total(),
            s.used_frames == self.frames().buddy.used(),
    {
        self.frame_allocator.stats()
    }
}

/// A page table for a new mapping level; not available yet, so always
/// refused as not mapped.
pub fn allocate_page_table() -> (r: Result<PageTable, MemoryError>)
    ensures
        r is Err && r == Err::<PageTable, MemoryError>(MemoryError::NotMapped),
{
    Err(MemoryError::NotMapped)
}

/// A run of physical pages.
#[derive(Debug, Clone, Copy)]
pub struct PhysRegion {
    pub start: PhysAddr,
    pub pages: usize,
}

impl PhysRegion {
    /// A run of `pages` pages from `start`.
    pub fn new(start: PhysAddr, pages: usize) -> (r: Self)
        ensures
            r.start == start,
            r.pages == pages,
    {
        PhysRegion { start, pages }
    }

    /// Size in bytes.
    pub fn size(&self) -> (n: u64)
        requires
            self.pages * 4096 <= u64::MAX,
        ensures
            n == self.pages * 4096,
    {
        self.pages as u64 * PAGE_SIZE
    }

    /// The first address after the run.
    pub fn end(&self) -> (a: PhysAddr)
        requires
            self.start.0 + self.pages * 4096 <= u64::MAX,
        ensures
            a.0 == self.start.0 + self.pages * 4096,
    {
        PhysAddr::new(self.start.as_u64() + self.size())
    }

    /// `addr` lies in the run.
    pub fn contains(&self, addr: PhysAddr) -> (b: bool)
        requires
            self.start.0 + self.pages * 4096 <= u64::MAX,
        ensures
            b == (self.start.0 <= addr.0 && addr.0 < self.start.0 + self.pages * 4096),
    {
        addr.as_u64() >= self.start.as_u64() && addr.as_u64() < self.end().as_u64()
    }
}

} // verus!
