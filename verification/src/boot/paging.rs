//! The boot loader's early page tables: raw entries and the identity map
//! of the first 512 GiB with 1 GiB pages.

use vstd::prelude::*;

verus! {

/// Entries per table.
pub const PAGE_TABLE_ENTRY_SIZE: usize = 512;
/// Higher-half base the kernel expects.
pub const KERNEL_VIRT_BASE: u64 = 0xFFFF_8000_0000_0000;
/// Bytes mapped by one PDPT entry with a huge page.
pub const GIB: u64 = 0x4000_0000;

/// Why the early page tables could not be set up.
#[derive(Debug, Clone, Copy, PartialEq, Eq, Structural)]
pub enum PagingError {
    AllocationFailed,
    MappingFailed,
}

/// Raw entry flag helpers.
#[derive(Debug, Clone, Copy)]
pub struct PageTableFlags;

impl PageTableFlags {
    /// Present and writable.
    pub fn present_bits() -> (b: u64)
        ensures
            b == 0x3,
    {
        0x3
    }

    /// Present, writable, huge page (1 GiB at this level).
    pub fn huge_page_bits() -> (b: u64)
        ensures
            b == 0x183,
    {
        0x183
    }

    /// The entry's present bit is set.
    pub fn is_present(entry: u64) -> (b: bool)
        ensures
            b == (entry & 0x1 != 0),
    {
        (entry & 0x1) != 0
    }

    /// The entry's huge-page bit is set.
    pub fn is_huge_page(entry: u64) -> (b: bool)
        ensures
            b == (entry & 0x80 != 0),
    {
        (entry & 0x80) != 0
    }
}

/// An entry naming the page of `phys_addr` with the low twelve bits of
/// `flags`.
pub fn make_entry(phys_addr: u64, flags: u64) -> (e: u64)
    ensures
        e == (phys_addr & !0xFFFu64) | (flags & 0xFFF),
{
    (phys_addr & !0xFFF) | (flags & 0xFFF)
}

/// The page address an entry names.
pub fn get_phys_addr(entry: u64) -> (a: u64)
    ensures
        a == entry & !0xFFFu64,
{
    entry & !0xFFF
}

/// An entry gives back the page address and the low flag bits it was
/// made from.
pub proof fn lemma_entry_round_trip(phys_addr: u64, flags: u64)
    ensures
        ((phys_addr & !0xFFFu64) | (flags & 0xFFF)) & !0xFFFu64 == phys_addr & !0xFFFu64,
        ((phys_addr & !0xFFFu64) | (flags & 0xFFF)) & 0xFFF == flags & 0xFFF,
{
    assert(((phys_addr & !0xFFFu64) | (flags & 0xFFF)) & !0xFFFu64 == phys_addr & !0xFFFu64
        && ((phys_addr & !0xFFFu64) | (flags & 0xFFF)) & 0xFFF == flags & 0xFFF) by (bit_vector);
}

/// The PDPT entry mapping the `i`-th GiB of physical memory.
pub open spec fn identity_entry(i: int) -> u64 {
    ((i * 0x4000_0000) as u64) | 0x183
}

/// The 512 PDPT entries that identity-map the first 512 GiB with huge
/// pages.
pub fn identity_pdpt_entries() -> (v: Vec<u64>)
    ensures
        v@.len() == 512,
        forall|i: int| 0 <= i < 512 ==> #[trigger] v@[i] == identity_entry(i),
{
    let mut v: Vec<u64> = Vec::new();
    let mut i: u64 = 0;
    while i < 512
        invariant
            i <= 512,
            v@.len() == i,
            forall|k: int| 0 <= k < i ==> #[trigger] v@[k] == identity_entry(k),
        decreases 512 - i,
    {
        let phys_addr = i * GIB;
        v.push(phys_addr | PageTableFlags::huge_page_bits());
        i += 1;
    }
    v
}

/// Each identity entry is a present huge page naming its own GiB.
pub proof fn lemma_identity_entry(i: u64)
    requires
        i < 512,
    ensures
        identity_entry(i as int) & !0xFFFu64 == i * 0x4000_0000,
        identity_entry(i as int) & 0x1 != 0,
        identity_entry(i as int) & 0x80 != 0,
{
    let a = (i * 0x4000_0000) as u64;
    assert(a == i << 30) by (bit_vector)
        requires
            i < 512,
            a == (i * 0x4000_0000) as u64,
    ;
    assert(i < 512 ==> ((i << 30) | 0x183) & !0xFFFu64 == i << 30 && ((i << 30) | 0x183) & 0x1 != 0
        && ((i << 30) | 0x183) & 0x80 != 0) by (bit_vector);
}

/// The PML4 entry pointing at the PDPT at `pdpt_phys`; the loader puts it
/// at indices 0 and 511.
pub fn identity_pml4_entry(pdpt_phys: u64) -> (e: u64)
    ensures
        e == pdpt_phys | 0x3,
{
    pdpt_phys | PageTableFlags::present_bits()
}

} // verus!
