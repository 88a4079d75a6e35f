//! Shared memory regions: zero-copy transfer of pages between processes.

use super::endpoint::ProcessId;
use crate::ids::IdCounter;
use crate::keyed::{Keyed, KeyedMap};
use vstd::prelude::*;

verus! {

/// Shared memory region identifier.
#[derive(Debug, Clone, Copy, PartialEq, Eq, Structural, Hash)]
pub struct ShmId(pub u64);

impl ShmId {
    /// A fresh identifier drawn from `ids`.
    pub fn new(ids: &mut IdCounter) -> (id: Self)
        ensures
            id.0 == old(ids).peek(),
            final(ids).peek() == (if old(ids).peek() == u64::MAX { 0 } else { (old(ids).peek() + 1) as u64 }),
    {
        ShmId(ids.next_id())
    }

    /// The raw identifier.
    pub fn as_u64(self) -> (r: u64)
        ensures
            r == self.0,
    {
        self.0
    }
}

/// A physical page frame backing a region.
#[derive(Debug, Clone, Copy, PartialEq, Eq, Structural)]
pub struct PhysFrame(pub u64);

impl PhysFrame {
    /// The frame at `addr`.
    pub fn new(addr: u64) -> (f: Self)
        ensures
            f.0 == addr,
    {
        PhysFrame(addr)
    }

    /// The frame's address.
    pub fn addr(self) -> (a: u64)
        ensures
            a == self.0,
    {
        self.0
    }
}

/// A virtual address a region is mapped at.
#[derive(Debug, Clone, Copy, PartialEq, Eq, Structural)]
pub struct VirtAddr(pub u64);

impl VirtAddr {
    /// The address `addr`.
    pub fn new(addr: u64) -> (v: Self)
        ensures
            v.0 == addr,
    {
        VirtAddr(addr)
    }

    /// The raw address.
    pub fn addr(self) -> (a: u64)
        ensures
            a == self.0,
    {
        self.0
    }
}

/// Memory access rights bits.
#[derive(Debug, Clone, Copy, PartialEq, Eq, Structural)]
pub struct MemoryRights(pub u32);

impl MemoryRights {
    /// No right.
    #[allow(non_snake_case)]
    #[verifier::allow_in_spec]
    pub fn NONE() -> Self
        returns
            MemoryRights(0),
    {
        MemoryRights(0)
    }

    /// Read.
    #[allow(non_snake_case)]
    #[verifier::allow_in_spec]
    pub fn READ() -> Self
        returns
            MemoryRights(1),
    {
        MemoryRights(1)
    }

    /// Write.
    #[allow(non_snake_case)]
    #[verifier::allow_in_spec]
    pub fn WRITE() -> Self
        returns
            MemoryRights(2),
    {
        MemoryRights(2)
    }

    /// Execute.
    #[allow(non_snake_case)]
    #[verifier::allow_in_spec]
    pub fn EXECUTE() -> Self
        returns
            MemoryRights(4),
    {
        MemoryRights(4)
    }

    /// The raw bits.
    pub fn bits(self) -> (b: u32)
        ensures
            b == self.0,
    {
        self.0
    }

    /// Every right of `other` is held.
    pub fn contains(self, other: Self) -> (b: bool)
        ensures
            b == (self.0 & other.0 == other.0),
    {
        (self.0 & other.0) == other.0
    }
}

impl core::ops::BitOr for MemoryRights {
    type Output = Self;

    fn bitor(self, rhs: Self) -> (r: Self) {
        MemoryRights(self.0 | rhs.0)
    }
}

impl vstd::std_specs::ops::BitOrSpecImpl for MemoryRights {
    open spec fn obeys_bitor_spec() -> bool {
        true
    }

    open spec fn bitor_req(self, rhs: MemoryRights) -> bool {
        true
    }

    open spec fn bitor_spec(self, rhs: MemoryRights) -> MemoryRights {
        MemoryRights(self.0 | rhs.0)
    }
}

impl core::ops::BitAnd for MemoryRights {
    type Output = Self;

    fn bitand(self, rhs: Self) -> (r: Self) {
        MemoryRights(self.0 & rhs.0)
    }
}

impl vstd::std_specs::ops::BitAndSpecImpl for MemoryRights {
    open spec fn obeys_bitand_spec() -> bool {
        true
    }

    open spec fn bitand_req(self, rhs: MemoryRights) -> bool {
        true
    }

    open spec fn bitand_spec(self, rhs: MemoryRights) -> MemoryRights {
        MemoryRights(self.0 & rhs.0)
    }
}

/// How a region is shared.
#[derive(Debug, Clone, Copy, PartialEq, Eq, Structural)]
pub enum ShareMode {
    CopyOnWrite,
    ReadOnly,
    ReadWrite,
}

/// A shared memory region: a list of page frames with rights and a
/// reference count.
#[derive(Debug, Clone)]
pub struct SharedMemoryRegion {
    pub id: ShmId,
    pub frames: Vec<PhysFrame>,
    pub page_count: usize,
    pub rights: MemoryRights,
    pub share_mode: ShareMode,
    pub owner: ProcessId,
    pub ref_count: u32,
}

/// A copy of a frame list.
fn copy_frames(frames: &Vec<PhysFrame>) -> (r: Vec<PhysFrame>)
    ensures
        r@ == frames@,
{
    let mut out: Vec<PhysFrame> = Vec::new();
    let mut i: usize = 0;
    while i < frames.len()
        invariant
            i <= frames@.len(),
            out@ == frames@.take(i as int),
        decreases frames@.len() - i,
    {
        out.push(frames[i]);
        proof {
            assert(out@ =~= frames@.take(i + 1));
        }
        i = i + 1;
    }
    assert(out@ =~= frames@);
    out
}

impl SharedMemoryRegion {
    /// A region over the given frames, with one reference.
    pub fn new(ids: &mut IdCounter, frames: Vec<PhysFrame>, rights: MemoryRights, share_mode: ShareMode, owner: ProcessId) -> (r: Self)
        ensures
            r.id.0 == old(ids).peek(),
            r.frames@ == frames@,
            r.page_count == frames@.len(),
            r.rights == rights,
            r.share_mode == share_mode,
            r.owner == owner,
            r.ref_count == 1,
            final(ids).peek() == (if old(ids).peek() == u64::MAX { 0 } else { (old(ids).peek() + 1) as u64 }),
    {
        let page_count = frames.len();
        SharedMemoryRegion { id: ShmId::new(ids), frames, page_count, rights, share_mode, owner, ref_count: 1 }
    }

    /// A read-write region of `page_count` pages whose frame `i` is at `i * 4096`.
    pub fn with_size(ids: &mut IdCounter, page_count: usize, owner: ProcessId) -> (r: Self)
        requires
            page_count * 4096 <= usize::MAX,
        ensures
            r.id.0 == old(ids).peek(),
            r.frames@ == Seq::new(page_count as nat, |i: int| PhysFrame((i * 4096) as u64)),
            r.page_count == page_count,
            r.rights == MemoryRights(1u32 | 2u32),
            r.share_mode == ShareMode::ReadWrite,
            r.owner == owner,
            r.ref_count == 1,
            final(ids).peek() == (if old(ids).peek() == u64::MAX { 0 } else { (old(ids).peek() + 1) as u64 }),
    {
        let mut frames: Vec<PhysFrame> = Vec::new();
        let mut i: usize = 0;
        while i < page_count
            invariant
                i <= page_count,
                page_count * 4096 <= usize::MAX,
                frames@ == Seq::new(i as nat, |k: int| PhysFrame((k * 4096) as u64)),
            decreases page_count - i,
        {
            frames.push(PhysFrame::new((i * 4096) as u64));
            proof {
                assert(frames@ =~= Seq::new((i + 1) as nat, |k: int| PhysFrame((k * 4096) as u64)));
            }
            i = i + 1;
        }
        Self::new(ids, frames, MemoryRights::READ() | MemoryRights::WRITE(), ShareMode::ReadWrite, owner)
    }

    /// Size in bytes.
    pub fn size_bytes(&self) -> (n: usize)
        requires
            self.page_count * 4096 <= usize::MAX,
        ensures
            n == self.page_count * 4096,
    {
        self.page_count * 4096
    }

    /// Add a reference; returns the new count.
    pub fn inc_ref(&mut self) -> (n: u32)
        requires
            old(self).ref_count < u32::MAX,
        ensures
            n == old(self).ref_count + 1,
            *final(self) == (SharedMemoryRegion { ref_count: n, ..*old(self) }),
    {
        self.ref_count = self.ref_count + 1;
        self.ref_count
    }

    /// Drop a reference; returns the new count.
    pub fn dec_ref(&mut self) -> (n: u32)
        requires
            old(self).ref_count > 0,
        ensures
            n == old(self).ref_count - 1,
            *final(self) == (SharedMemoryRegion { ref_count: n, ..*old(self) }),
    {
        self.ref_count = self.ref_count - 1;
        self.ref_count
    }

    /// The reference count.
    pub fn ref_count(&self) -> (n: u32)
        ensures
            n == self.ref_count,
    {
        self.ref_count
    }

    /// A new region over the same frames with the rights of `self` that are
    /// also in `rights`, the given mode, a fresh identifier and one
    /// reference; `self` gains a reference.
    pub fn derive(&mut self, ids: &mut IdCounter, rights: MemoryRights, mode: ShareMode) -> (r: Self)
        requires
            old(self).ref_count < u32::MAX,
        ensures
            *final(self) == (SharedMemoryRegion { ref_count: (old(self).ref_count + 1) as u32, ..*old(self) }),
            r.id.0 == old(ids).peek(),
            r.frames@ == old(self).frames@,
            r.page_count == old(self).page_count,
            r.rights == MemoryRights(old(self).rights.0 & rights.0),
            r.share_mode == mode,
            r.owner == old(self).owner,
            r.ref_count == 1,
            final(ids).peek() == (if old(ids).peek() == u64::MAX { 0 } else { (old(ids).peek() + 1) as u64 }),
    {
        let new_rights = self.rights & rights;
        self.inc_ref();
        SharedMemoryRegion {
            id: ShmId::new(ids),
            frames: copy_frames(&self.frames),
            page_count: self.page_count,
            rights: new_rights,
            share_mode: mode,
            owner: self.owner,
            ref_count: 1,
        }
    }
}

/// A derived region never holds a right its source lacks.
pub proof fn lemma_derive_restricts_rights(source: MemoryRights, requested: MemoryRights)
    ensures
        source.0 & (source.0 & requested.0) == (source.0 & requested.0),
        requested.0 & (source.0 & requested.0) == (source.0 & requested.0),
{
    and_facts(source.0, requested.0);
}

proof fn and_facts(a: u32, b: u32)
    by (bit_vector)
    ensures
        a & (a & b) == (a & b),
        b & (a & b) == (a & b),
{
}

/// Handle naming one mapping of a region.
#[derive(Debug, Clone, Copy, PartialEq, Eq, Structural, Hash)]
pub struct ShmHandle(pub u64);

impl ShmHandle {
    /// The handle with the given value.
    pub fn new(id: u64) -> (h: Self)
        ensures
            h.0 == id,
    {
        ShmHandle(id)
    }

    /// The raw handle.
    pub fn as_u64(self) -> (r: u64)
        ensures
            r == self.0,
    {
        self.0
    }
}

/// One mapping of a region into a process.
#[derive(Debug, Clone, Copy, PartialEq, Eq, Structural)]
pub struct ShmMapping {
    pub handle: ShmHandle,
    pub region_id: ShmId,
    pub vaddr: VirtAddr,
    pub size: usize,
    pub process: ProcessId,
}

/// Shared memory errors.
#[derive(Debug, Clone, Copy, PartialEq, Eq, Structural)]
pub enum ShmError {
    RegionNotFound,
    MappingFailed,
    InvalidHandle,
    PermissionDenied,
    OutOfMemory,
}

impl Keyed for SharedMemoryRegion {
    open spec fn key_of(&self) -> u64 {
        self.id.0
    }

    fn key(&self) -> (k: u64) {
        self.id.0
    }
}

impl Keyed for ShmMapping {
    open spec fn key_of(&self) -> u64 {
        self.handle.0
    }

    fn key(&self) -> (k: u64) {
        self.handle.0
    }
}

/// The table of shared memory regions and their mappings.
pub struct SharedMemoryManager {
    regions: KeyedMap<SharedMemoryRegion>,
    mappings: KeyedMap<ShmMapping>,
    handle_counter: u64,
}

impl SharedMemoryManager {
    /// The regions, by identifier.
    pub closed spec fn regions(&self) -> Map<u64, SharedMemoryRegion> {
        self.regions@
    }

    /// The mappings, by handle.
    pub closed spec fn mappings(&self) -> Map<u64, ShmMapping> {
        self.mappings@
    }

    /// Number of regions.
    pub closed spec fn region_total(&self) -> nat {
        self.regions.count()
    }

    /// Number of mappings.
    pub closed spec fn mapping_total(&self) -> nat {
        self.mappings.count()
    }

    /// The handle the next mapping gets.
    pub closed spec fn next_handle(&self) -> u64 {
        self.handle_counter
    }

    /// The manager's invariant: distinct keys; every region has a reference
    /// and a size that fits in memory.
    pub closed spec fn wf(&self) -> bool {
        &&& self.regions.wf()
        &&& self.mappings.wf()
        &&& forall|k: u64| #[trigger] self.regions@.contains_key(k) ==> {
            &&& self.regions@[k].ref_count >= 1
            &&& self.regions@[k].page_count * 4096 <= usize::MAX
        }
    }

    /// An empty manager whose first mapping handle is 1.
    pub fn new() -> (m: Self)
        ensures
            m.wf(),
            m.regions() == Map::<u64, SharedMemoryRegion>::empty(),
            m.mappings() == Map::<u64, ShmMapping>::empty(),
            m.region_total() == 0,
            m.mapping_total() == 0,
            m.next_handle() == 1,
    {
        SharedMemoryManager { regions: KeyedMap::new(), mappings: KeyedMap::new(), handle_counter: 1 }
    }

    /// Create and register a region of `page_count` pages; returns its identifier.
    pub fn create_region(
        &mut self,
        ids: &mut IdCounter,
        page_count: usize,
        rights: MemoryRights,
        mode: ShareMode,
        owner: ProcessId,
    ) -> (r: Result<ShmId, ShmError>)
        requires
            old(self).wf(),
            page_count * 4096 <= usize::MAX,
        ensures
            final(self).wf(),
            r == Ok::<ShmId, ShmError>(ShmId(old(ids).peek())),
            final(self).regions().contains_key(old(ids).peek()),
            ({
                let reg = final(self).regions()[old(ids).peek()];
                &&& reg.id == ShmId(old(ids).peek())
                &&& reg.frames@ == Seq::new(page_count as nat, |i: int| PhysFrame((i * 4096) as u64))
                &&& reg.page_count == page_count
                &&& reg.rights == rights
                &&& reg.share_mode == mode
                &&& reg.owner == owner
                &&& reg.ref_count == 1
            }),
            final(self).regions() == old(self).regions().insert(old(ids).peek(), final(self).regions()[old(ids).peek()]),
            final(self).mappings() == old(self).mappings(),
            final(self).next_handle() == old(self).next_handle(),
            final(self).region_total() == old(self).region_total() + (if old(self).regions().contains_key(old(ids).peek()) { 0int } else { 1int }),
            final(self).mapping_total() == old(self).mapping_total(),
            final(ids).peek() == (if old(ids).peek() == u64::MAX { 0 } else { (old(ids).peek() + 1) as u64 }),
    {
        let mut region = SharedMemoryRegion::with_size(ids, page_count, owner);
        region.rights = rights;
        region.share_mode = mode;
        let id = region.id;
        self.regions.insert(region);
        Ok(id)
    }

    /// The region with the given identifier.
    pub fn get_region(&self, id: ShmId) -> (r: Option<&SharedMemoryRegion>)
        requires
            self.wf(),
        ensures
            match r {
                Some(reg) => self.regions().contains_key(id.0) && *reg == self.regions()[id.0],
                None => !self.regions().contains_key(id.0),
            },
    {
        self.regions.get(id.0)
    }

    /// Map a region into a process at `vaddr`: record a mapping under a new
    /// handle, and count a reference on the registered region of that
    /// identifier, if there is one.
    pub fn map_region(&mut self, region: &SharedMemoryRegion, process: ProcessId, vaddr: VirtAddr) -> (r: Result<ShmHandle, ShmError>)
        requires
            old(self).wf(),
            region.page_count * 4096 <= usize::MAX,
            old(self).regions().contains_key(region.id.0) ==> old(self).regions()[region.id.0].ref_count < u32::MAX,
        ensures
            final(self).wf(),
            r == Ok::<ShmHandle, ShmError>(ShmHandle(old(self).next_handle())),
            final(self).next_handle() == (if old(self).next_handle() == u64::MAX { 0 } else { (old(self).next_handle() + 1) as u64 }),
            final(self).mappings() == old(self).mappings().insert(old(self).next_handle(), ShmMapping {
                handle: ShmHandle(old(self).next_handle()),
                region_id: region.id,
                vaddr,
                size: (region.page_count * 4096) as usize,
                process,
            }),
            old(self).regions().contains_key(region.id.0) ==> final(self).regions() == old(self).regions().insert(region.id.0, SharedMemoryRegion {
                ref_count: (old(self).regions()[region.id.0].ref_count + 1) as u32,
                ..old(self).regions()[region.id.0]
            }),
            !old(self).regions().contains_key(region.id.0) ==> final(self).regions() == old(self).regions(),
            final(self).region_total() == old(self).region_total(),
            final(self).mapping_total() == old(self).mapping_total() + (if old(self).mappings().contains_key(old(self).next_handle()) { 0int } else { 1int }),
    {
        let handle = ShmHandle::new(self.handle_counter);
        self.handle_counter = self.handle_counter.wrapping_add(1);
        let mapping = ShmMapping { handle, region_id: region.id, vaddr, size: region.size_bytes(), process };
        match self.regions.remove(region.id.0) {
            Some(reg) => {
                let mut reg = reg;
                reg.inc_ref();
                self.regions.insert(reg);
            },
            None => {
                proof {
                    assert(self.regions@ =~= old(self).regions@);
                }
            },
        }
        self.mappings.insert(mapping);
        Ok(handle)
    }

    /// Remove a mapping and drop a reference on its region. Unknown handles
    /// are ignored. Dropping the region's last reference is left out: the
    /// unmapping would then wait forever for the region table it holds.
    pub fn unmap(&mut self, handle: ShmHandle) -> (r: Result<(), ShmError>)
        requires
            old(self).wf(),
            old(self).mappings().contains_key(handle.0) && old(self).regions().contains_key(old(self).mappings()[handle.0].region_id.0)
                ==> old(self).regions()[old(self).mappings()[handle.0].region_id.0].ref_count > 1,
        ensures
            final(self).wf(),
            r == Ok::<(), ShmError>(()),
            final(self).mappings() == old(self).mappings().remove(handle.0),
            final(self).next_handle() == old(self).next_handle(),
            !old(self).mappings().contains_key(handle.0) ==> final(self).regions() == old(self).regions(),
            old(self).mappings().contains_key(handle.0) ==> {
                let rid = old(self).mappings()[handle.0].region_id.0;
                &&& !old(self).regions().contains_key(rid) ==> final(self).regions() == old(self).regions()
                &&& old(self).regions().contains_key(rid)
                    ==> final(self).regions() == old(self).regions().insert(rid, SharedMemoryRegion {
                        ref_count: (old(self).regions()[rid].ref_count - 1) as u32,
                        ..old(self).regions()[rid]
                    })
            },
            final(self).mapping_total() == old(self).mapping_total() - (if old(self).mappings().contains_key(handle.0) { 1int } else { 0int }),
            final(self).region_total() == old(self).region_total(),
    {
        match self.mappings.remove(handle.0) {
            Some(mapping) => {
                match self.regions.remove(mapping.region_id.0) {
                    Some(reg) => {
                        let mut reg = reg;
                        reg.dec_ref();
                        self.regions.insert(reg);
                    },
                    None => {
                        proof {
                            assert(self.regions@ =~= old(self).regions@);
                        }
                    },
                }
            },
            None => {},
        }
        Ok(())
    }

    /// Share a registered region with another process: when the region
    /// holds every requested right, return a derived region restricted to
    /// them (the registered region gains a reference).
    pub fn share_to_process(
        &mut self,
        ids: &mut IdCounter,
        region_id: ShmId,
        target_process: ProcessId,
        rights: MemoryRights,
    ) -> (r: Result<SharedMemoryRegion, ShmError>)
        requires
            old(self).wf(),
            old(self).regions().contains_key(region_id.0) ==> old(self).regions()[region_id.0].ref_count < u32::MAX,
        ensures
            final(self).wf(),
            final(self).mappings() == old(self).mappings(),
            final(self).region_total() == old(self).region_total(),
            final(self).mapping_total() == old(self).mapping_total(),
            !old(self).regions().contains_key(region_id.0) ==> (r matches Err(e) && e == ShmError::RegionNotFound) && final(self).regions() == old(self).regions(),
            old(self).regions().contains_key(region_id.0) && old(self).regions()[region_id.0].rights.0 & rights.0 != rights.0
                ==> (r matches Err(e) && e == ShmError::PermissionDenied) && final(self).regions() == old(self).regions(),
            old(self).regions().contains_key(region_id.0) && old(self).regions()[region_id.0].rights.0 & rights.0 == rights.0 ==> {
                let reg = old(self).regions()[region_id.0];
                &&& r matches Ok(d) && d.id.0 == old(ids).peek() && d.frames@ == reg.frames@ && d.page_count == reg.page_count
                    && d.rights == MemoryRights(reg.rights.0 & rights.0) && d.share_mode == reg.share_mode
                    && d.owner == reg.owner && d.ref_count == 1
                &&& final(self).regions() == old(self).regions().insert(region_id.0, SharedMemoryRegion {
                    ref_count: (reg.ref_count + 1) as u32,
                    ..reg
                })
            },
    {
        match self.regions.remove(region_id.0) {
            Some(reg) => {
                let mut reg = reg;
                if !reg.rights.contains(rights) {
                    self.regions.insert(reg);
                    proof {
                        assert(self.regions@ =~= old(self).regions@);
                    }
                    return Err(ShmError::PermissionDenied);
                }
                let mode = reg.share_mode;
                let derived = reg.derive(ids, rights, mode);
                self.regions.insert(reg);
                Ok(derived)
            },
            None => {
                proof {
                    assert(self.regions@ =~= old(self).regions@);
                }
                Err(ShmError::RegionNotFound)
            },
        }
    }

    /// Unregister a region.
    pub fn destroy_region(&mut self, id: ShmId) -> (r: Result<(), ShmError>)
        requires
            old(self).wf(),
        ensures
            final(self).wf(),
            final(self).regions() == old(self).regions().remove(id.0),
            final(self).mappings() == old(self).mappings(),
            r == (if old(self).regions().contains_key(id.0) { Ok::<(), ShmError>(()) } else { Err::<(), ShmError>(ShmError::RegionNotFound) }),
            final(self).region_total() == old(self).region_total() - (if old(self).regions().contains_key(id.0) { 1int } else { 0int }),
            final(self).mapping_total() == old(self).mapping_total(),
    {
        match self.regions.remove(id.0) {
            Some(_) => Ok(()),
            None => Err(ShmError::RegionNotFound),
        }
    }

    /// Number of regions.
    pub fn region_count(&self) -> (n: usize)
        ensures
            n == self.region_total(),
    {
        self.regions.len()
    }

    /// Number of mappings.
    pub fn mapping_count(&self) -> (n: usize)
        ensures
            n == self.mapping_total(),
    {
        self.mappings.len()
    }
}

} // verus!
