//! The architecture's view of page tables: raw entries that name a
//! physical address and carry the entry flags.

use crate::arch::{PhysAddr, VirtAddr, PAGE_SIZE};
pub use crate::memory::page_table::PageTableFlags;
use crate::memory::page_table::ALL_PAGE_FLAGS;
use vstd::prelude::*;

verus! {

/// The address bits of an entry (bits 12 to 51).
pub const FRAME_ADDR_MASK: u64 = 0x000F_FFFF_FFFF_F000;

/// A page table entry.
#[derive(Debug, Clone, Copy, PartialEq, Eq, Structural)]
pub struct PageTableEntry(pub u64);

impl PageTableEntry {
    /// The unused entry.
    pub fn empty() -> (e: Self)
        ensures
            e.0 == 0,
    {
        PageTableEntry(0)
    }

    /// An entry naming `frame` with `flags`.
    pub fn new(frame: PhysAddr, flags: PageTableFlags) -> (e: Self)
        ensures
            e.0 == frame.0 | flags.0,
    {
        PageTableEntry(frame.as_u64() | flags.bits())
    }

    /// The present bit is set.
    pub fn is_present(&self) -> (b: bool)
        ensures
            b == (self.0 & 1 != 0),
    {
        self.0 & 1 != 0
    }

    /// The physical address of a present entry.
    pub fn frame(&self) -> (a: Option<PhysAddr>)
        ensures
            a == (if self.0 & 1 != 0 { Some(PhysAddr(self.0 & FRAME_ADDR_MASK)) } else { None::<PhysAddr> }),
    {
        if self.is_present() {
            Some(PhysAddr::new(self.0 & FRAME_ADDR_MASK))
        } else {
            None
        }
    }

    /// The defined flags of the entry.
    pub fn flags(&self) -> (f: PageTableFlags)
        ensures
            f.0 == self.0 & ALL_PAGE_FLAGS,
    {
        PageTableFlags::from_bits_truncate(self.0)
    }
}

/// A present entry made from an address in bits 12 to 51 gives that
/// address back.
pub proof fn lemma_arch_entry_frame(frame: u64, flags: u64)
    requires
        frame & !FRAME_ADDR_MASK == 0,
        flags & !0x1FFu64 == 0,
        flags & 1 == 1,
    ensures
        (frame | flags) & 1 != 0,
        (frame | flags) & FRAME_ADDR_MASK == frame,
{
    assert((frame & !0x000F_FFFF_FFFF_F000u64 == 0 && flags & !0x1FFu64 == 0 && flags & 1 == 1) ==> (
        (frame | flags) & 1 != 0 && (frame | flags) & 0x000F_FFFF_FFFF_F000u64 == frame)) by (bit_vector);
}

/// A page table of 512 raw entries.
pub struct PageTable {
    pub entries: Vec<PageTableEntry>,
}

impl PageTable {
    /// A table of unused entries.
    pub fn new() -> (t: Self)
        ensures
            t.entries@.len() == 512,
            forall|i: int| 0 <= i < 512 ==> #[trigger] t.entries@[i].0 == 0,
    {
        let mut entries: Vec<PageTableEntry> = Vec::new();
        while entries.len() < 512
            invariant
                entries@.len() <= 512,
                forall|i: int| 0 <= i < entries@.len() ==> #[trigger] entries@[i].0 == 0,
            decreases 512 - entries@.len(),
        {
            entries.push(PageTableEntry::empty());
        }
        PageTable { entries }
    }
}

/// The index of the page containing `virt`.
pub fn virt_to_page(virt: VirtAddr) -> (p: u64)
    ensures
        p == virt.0 / 4096,
{
    virt.as_u64() / PAGE_SIZE
}

} // verus!
