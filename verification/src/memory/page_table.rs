//! x86_64 four-level page tables (PML4, PDPT, PD, PT): entry flags,
//! entries, tables and the split of a virtual address into table indices.

use crate::arch::{page_floor, lemma_page_mask, PhysAddr, VirtAddr, PAGE_SIZE};
use crate::memory::frame::PhysFrame;
use vstd::prelude::*;

verus! {

/// Entries per table.
pub const PAGE_TABLE_ENTRIES: usize = 512;
/// Bytes per table.
pub const PAGE_TABLE_SIZE: u64 = 4096;
/// Shift of the PML4 index in a virtual address.
pub const PML4_SHIFT: u64 = 39;
/// Shift of the PDPT index.
pub const PDPT_SHIFT: u64 = 30;
/// Shift of the PD index.
pub const PD_SHIFT: u64 = 21;
/// Shift of the PT index.
pub const PT_SHIFT: u64 = 12;
/// The PML4 index bits.
pub const PML4_MASK: u64 = 0xFF80_0000_0000;
/// The PDPT index bits.
pub const PDPT_MASK: u64 = 0x7F_C000_0000;
/// The PD index bits.
pub const PD_MASK: u64 = 0x3FE0_0000;
/// The PT index bits.
pub const PT_MASK: u64 = 0x1F_F000;
/// Every defined flag bit.
pub const ALL_PAGE_FLAGS: u64 = 0x8000_0000_0000_01FF;
/// The bits of an entry that hold the frame address.
pub const ENTRY_ADDR_MASK: u64 = 0xFFFF_FFFF_FFFF_F000;

/// Flags of a page table entry.
#[derive(Debug, Clone, Copy, PartialEq, Eq, Structural)]
pub struct PageTableFlags(pub u64);

/// The flags of both sets.
pub open spec fn flags_or(a: PageTableFlags, b: PageTableFlags) -> PageTableFlags {
    PageTableFlags(a.0 | b.0)
}

impl PageTableFlags {
    /// The entry is present.
    #[allow(non_snake_case)]
    #[verifier::allow_in_spec]
    pub fn PRESENT() -> Self
        returns
            PageTableFlags(1),
    {
        PageTableFlags(1)
    }

    /// The page is writable.
    #[allow(non_snake_case)]
    #[verifier::allow_in_spec]
    pub fn WRITABLE() -> Self
        returns
            PageTableFlags(2),
    {
        PageTableFlags(2)
    }

    /// The page is reachable from user mode.
    #[allow(non_snake_case)]
    #[verifier::allow_in_spec]
    pub fn USER_ACCESSIBLE() -> Self
        returns
            PageTableFlags(4),
    {
        PageTableFlags(4)
    }

    /// Writes go through the cache.
    #[allow(non_snake_case)]
    #[verifier::allow_in_spec]
    pub fn WRITE_THROUGH() -> Self
        returns
            PageTableFlags(8),
    {
        PageTableFlags(8)
    }

    /// The page is not cached.
    #[allow(non_snake_case)]
    #[verifier::allow_in_spec]
    pub fn NO_CACHE() -> Self
        returns
            PageTableFlags(16),
    {
        PageTableFlags(16)
    }

    /// The page has been accessed.
    #[allow(non_snake_case)]
    #[verifier::allow_in_spec]
    pub fn ACCESSED() -> Self
        returns
            PageTableFlags(32),
    {
        PageTableFlags(32)
    }

    /// The page has been written.
    #[allow(non_snake_case)]
    #[verifier::allow_in_spec]
    pub fn DIRTY() -> Self
        returns
            PageTableFlags(64),
    {
        PageTableFlags(64)
    }

    /// The entry maps a huge page.
    #[allow(non_snake_case)]
    #[verifier::allow_in_spec]
    pub fn HUGE_PAGE() -> Self
        returns
            PageTableFlags(128),
    {
        PageTableFlags(128)
    }

    /// The mapping is global.
    #[allow(non_snake_case)]
    #[verifier::allow_in_spec]
    pub fn GLOBAL() -> Self
        returns
            PageTableFlags(256),
    {
        PageTableFlags(256)
    }

    /// The page may not be executed.
    #[allow(non_snake_case)]
    #[verifier::allow_in_spec]
    pub fn NO_EXECUTE() -> Self
        returns
            PageTableFlags(0x8000_0000_0000_0000),
    {
        PageTableFlags(0x8000_0000_0000_0000)
    }

    /// No flag.
    pub fn empty() -> (f: Self)
        ensures
            f.0 == 0,
    {
        PageTableFlags(0)
    }

    /// Every defined flag.
    pub fn all() -> (f: Self)
        ensures
            f.0 == ALL_PAGE_FLAGS,
    {
        PageTableFlags(ALL_PAGE_FLAGS)
    }

    /// The raw bits.
    pub fn bits(&self) -> (b: u64)
        ensures
            b == self.0,
    {
        self.0
    }

    /// The defined flags among `bits`.
    pub fn from_bits_truncate(bits: u64) -> (f: Self)
        ensures
            f.0 == bits & ALL_PAGE_FLAGS,
    {
        PageTableFlags(bits & ALL_PAGE_FLAGS)
    }

    /// `bits` as flags, if it holds defined flags only.
    pub fn from_bits(bits: u64) -> (f: Option<Self>)
        ensures
            f == (if bits & !ALL_PAGE_FLAGS == 0 { Some(PageTableFlags(bits)) } else { None::<PageTableFlags> }),
    {
        if bits & !ALL_PAGE_FLAGS == 0 {
            Some(PageTableFlags(bits))
        } else {
            None
        }
    }

    /// Every flag of `other` is set in `self`.
    pub fn contains(&self, other: Self) -> (b: bool)
        ensures
            b == (self.0 & other.0 == other.0),
    {
        self.0 & other.0 == other.0
    }

    /// The flags of both sets.
    pub fn union(self, other: Self) -> (f: Self)
        ensures
            f == flags_or(self, other),
    {
        PageTableFlags(self.0 | other.0)
    }

    /// Set the flags of `other`.
    pub fn insert(&mut self, other: Self)
        ensures
            *final(self) == flags_or(*old(self), other),
    {
        self.0 = self.0 | other.0;
    }

    /// Clear the flags of `other`.
    pub fn remove(&mut self, other: Self)
        ensures
            final(self).0 == old(self).0 & !other.0,
    {
        self.0 = self.0 & !other.0;
    }

    /// Kernel code: present and writable.
    pub fn kernel_code() -> (f: Self)
        ensures
            f.0 == 3,
    {
        PageTableFlags(3)
    }

    /// Kernel data: present and writable.
    pub fn kernel_data() -> (f: Self)
        ensures
            f.0 == 3,
    {
        PageTableFlags(3)
    }

    /// Kernel read-only data: present.
    pub fn kernel_rodata() -> (f: Self)
        ensures
            f.0 == 1,
    {
        PageTableFlags(1)
    }

    /// User code: present, writable, user-accessible.
    pub fn user_code() -> (f: Self)
        ensures
            f.0 == 7,
    {
        PageTableFlags(7)
    }

    /// User data: present, writable, user-accessible.
    pub fn user_data() -> (f: Self)
        ensures
            f.0 == 7,
    {
        PageTableFlags(7)
    }

    /// User read-only data: present, user-accessible.
    pub fn user_rodata() -> (f: Self)
        ensures
            f.0 == 5,
    {
        PageTableFlags(5)
    }
}

impl core::ops::BitOr for PageTableFlags {
    type Output = Self;

    fn bitor(self, rhs: Self) -> (r: Self) {
        PageTableFlags(self.0 | rhs.0)
    }
}

impl vstd::std_specs::ops::BitOrSpecImpl for PageTableFlags {
    open spec fn obeys_bitor_spec() -> bool {
        true
    }

    open spec fn bitor_req(self, rhs: PageTableFlags) -> bool {
        true
    }

    open spec fn bitor_spec(self, rhs: PageTableFlags) -> PageTableFlags {
        flags_or(self, rhs)
    }
}

/// A page table entry: a frame address and flags in one word.
#[derive(Debug, Clone, Copy, PartialEq, Eq, Structural)]
pub struct PageTableEntry(pub u64);

impl PageTableEntry {
    /// The unused entry.
    pub fn empty() -> (e: Self)
        ensures
            e.0 == 0,
    {
        PageTableEntry(0)
    }

    /// An entry mapping a base-page frame with `flags`.
    pub fn new(frame: PhysFrame, flags: PageTableFlags) -> (e: Self)
        requires
            frame.order == 0,
        ensures
            e.0 == frame.start.0 | flags.0,
    {
        PageTableEntry(frame.start.as_u64() | flags.bits())
    }

    /// The entry is all zeroes.
    pub fn is_unused(&self) -> (b: bool)
        ensures
            b == (self.0 == 0),
    {
        self.0 == 0
    }

    /// The present bit is set.
    pub fn is_present(&self) -> (b: bool)
        ensures
            b == (self.0 & 1 != 0),
    {
        self.0 & 1 != 0
    }

    /// The huge-page bit is set.
    pub fn is_huge(&self) -> (b: bool)
        ensures
            b == (self.0 & 128 != 0),
    {
        self.0 & 128 != 0
    }

    /// The defined flags of the entry.
    pub fn flags(&self) -> (f: PageTableFlags)
        ensures
            f.0 == self.0 & ALL_PAGE_FLAGS,
    {
        PageTableFlags::from_bits_truncate(self.0)
    }

    /// The base-page frame the entry names.
    pub fn frame(&self) -> (f: PhysFrame)
        ensures
            f.start.0 == self.0 & ENTRY_ADDR_MASK,
            f.order == 0,
    {
        PhysFrame::new(PhysAddr::new(self.0 & ENTRY_ADDR_MASK), 0)
    }

    /// The address bits of the entry.
    pub fn addr(&self) -> (a: PhysAddr)
        ensures
            a.0 == self.0 & ENTRY_ADDR_MASK,
    {
        PhysAddr::new(self.0 & ENTRY_ADDR_MASK)
    }

    /// Point the entry at a base-page frame with `flags`.
    pub fn set(&mut self, frame: PhysFrame, flags: PageTableFlags)
        requires
            frame.order == 0,
        ensures
            final(self).0 == frame.start.0 | flags.0,
    {
        self.0 = frame.start.as_u64() | flags.bits();
    }

    /// Make the entry unused.
    pub fn clear(&mut self)
        ensures
            final(self).0 == 0,
    {
        self.0 = 0;
    }

    /// The raw word.
    pub fn as_u64(&self) -> (r: u64)
        ensures
            r == self.0,
    {
        self.0
    }
}

/// An entry made from a page-aligned frame below bit 63 and defined flags
/// below bit 12 gives back that frame, those flags and that presence.
pub proof fn lemma_entry_round_trip(frame: PhysFrame, flags: PageTableFlags)
    requires
        frame.order == 0,
        frame.start.0 % 4096 == 0,
        frame.start.0 < 0x8000_0000_0000_0000u64,
        flags.0 & !0x1FFu64 == 0,
    ensures
        (frame.start.0 | flags.0) & ENTRY_ADDR_MASK == frame.start.0,
        (frame.start.0 | flags.0) & ALL_PAGE_FLAGS == flags.0,
        ((frame.start.0 | flags.0) & 1 != 0) == (flags.0 & 1 != 0),
        ((frame.start.0 | flags.0) & 128 != 0) == (flags.0 & 128 != 0),
{
    let a = frame.start.0;
    let f = flags.0;
    assert(a % 4096 == 0 ==> a & 0xFFFu64 == 0) by (bit_vector);
    assert((a & 0xFFFu64 == 0 && a < 0x8000_0000_0000_0000u64 && f & !0x1FFu64 == 0) ==> (
        (a | f) & 0xFFFF_FFFF_FFFF_F000u64 == a
        && (a | f) & 0x8000_0000_0000_01FFu64 == f
        && (((a | f) & 1 != 0) == (f & 1 != 0))
        && (((a | f) & 128 != 0) == (f & 128 != 0)))) by (bit_vector);
}

/// A page table: 512 entries.
pub struct PageTable {
    pub entries: Vec<PageTableEntry>,
}

impl PageTable {
    /// The table has its 512 entries.
    pub open spec fn wf(&self) -> bool {
        self.entries@.len() == PAGE_TABLE_ENTRIES
    }

    /// A table of unused entries.
    pub fn new() -> (t: Self)
        ensures
            t.wf(),
            forall|i: int| 0 <= i < 512 ==> #[trigger] t.entries@[i].0 == 0,
    {
        let mut entries: Vec<PageTableEntry> = Vec::new();
        while entries.len() < PAGE_TABLE_ENTRIES
            invariant
                entries@.len() <= 512,
                forall|i: int| 0 <= i < entries@.len() ==> #[trigger] entries@[i].0 == 0,
            decreases 512 - entries@.len(),
        {
            entries.push(PageTableEntry::empty());
        }
        PageTable { entries }
    }

    /// The entry at `index`, if the index is in range.
    pub fn get(&self, index: usize) -> (e: Option<&PageTableEntry>)
        ensures
            e == (if index < self.entries@.len() { Some(&self.entries@[index as int]) } else { None::<&PageTableEntry> }),
    {
        if index < self.entries.len() {
            Some(&self.entries[index])
        } else {
            None
        }
    }

    /// The entry at `index`, to change in place, if the index is in range.
    pub fn get_mut(&mut self, index: usize) -> (e: Option<&mut PageTableEntry>)
        ensures
            index < old(self).entries@.len() ==> (e matches Some(r) && *r == old(self).entries@[index as int]
                && final(self).entries@ == old(self).entries@.update(index as int, *final(r))),
            index >= old(self).entries@.len() ==> e is None && final(self).entries@ == old(self).entries@,
    {
        if index < self.entries.len() {
            Some(&mut self.entries[index])
        } else {
            None
        }
    }

    /// The entries, in index order.
    pub fn iter(&self) -> (s: &[PageTableEntry])
        ensures
            s@ == self.entries@,
    {
        self.entries.as_slice()
    }

    /// Make every entry unused.
    pub fn clear(&mut self)
        ensures
            final(self).entries@.len() == old(self).entries@.len(),
            forall|i: int| 0 <= i < final(self).entries@.len() ==> #[trigger] final(self).entries@[i].0 == 0,
    {
        let n = self.entries.len();
        let mut i: usize = 0;
        while i < n
            invariant
                n == self.entries@.len(),
                i <= n,
                forall|j: int| 0 <= j < i ==> #[trigger] self.entries@[j].0 == 0,
            decreases n - i,
        {
            self.entries.set(i, PageTableEntry::empty());
            i += 1;
        }
    }
}

/// The nine-bit table index of `addr` at `shift`.
pub open spec fn table_index(addr: u64, shift: u64) -> usize {
    ((addr >> shift) & 0x1FF) as usize
}

/// The canonical-free part of an address that the four indices encode.
pub open spec fn indexed_bits(addr: u64) -> u64 {
    addr & 0xFFFF_FFFF_F000
}

/// The address whose table indices are the four given.
pub open spec fn address_of_indices(p4: usize, p3: usize, p2: usize, p1: usize) -> u64 {
    ((p4 as u64) << 39) | ((p3 as u64) << 30) | ((p2 as u64) << 21) | ((p1 as u64) << 12)
}

/// The PML4, PDPT, PD and PT indices of a virtual address.
pub fn page_table_indices(addr: VirtAddr) -> (r: (usize, usize, usize, usize))
    ensures
        r == (table_index(addr.0, 39), table_index(addr.0, 30), table_index(addr.0, 21), table_index(addr.0, 12)),
        r.0 < 512 && r.1 < 512 && r.2 < 512 && r.3 < 512,
{
    let a = addr.as_u64();
    assert(forall|s: u64| (a >> s) & 0x1FF < 512) by (bit_vector);
    let pml4_idx = ((a >> PML4_SHIFT) & 0x1FF) as usize;
    let pdpt_idx = ((a >> PDPT_SHIFT) & 0x1FF) as usize;
    let pd_idx = ((a >> PD_SHIFT) & 0x1FF) as usize;
    let pt_idx = ((a >> PT_SHIFT) & 0x1FF) as usize;
    (pml4_idx, pdpt_idx, pd_idx, pt_idx)
}

/// The virtual address with the four given table indices and offset zero.
pub fn page_table_addr(pml4_idx: usize, pdpt_idx: usize, pd_idx: usize, pt_idx: usize) -> (v: VirtAddr)
    ensures
        v.0 == address_of_indices(pml4_idx, pdpt_idx, pd_idx, pt_idx),
{
    let addr = ((pml4_idx as u64) << PML4_SHIFT) | ((pdpt_idx as u64) << PDPT_SHIFT) | ((pd_idx as u64) << PD_SHIFT)
        | ((pt_idx as u64) << PT_SHIFT);
    VirtAddr::new(addr)
}

/// Splitting an address into indices and joining them back gives the
/// address with its offset and sign-extension bits cleared; joining four
/// indices below 512 and splitting again gives the same indices.
pub proof fn lemma_indices_round_trip(addr: u64, p4: u64, p3: u64, p2: u64, p1: u64)
    ensures
        (((addr >> 39) & 0x1FF) << 39) | (((addr >> 30) & 0x1FF) << 30) | (((addr >> 21) & 0x1FF) << 21)
            | (((addr >> 12) & 0x1FF) << 12) == indexed_bits(addr),
        (p4 < 512 && p3 < 512 && p2 < 512 && p1 < 512) ==> {
            let a = (p4 << 39) | (p3 << 30) | (p2 << 21) | (p1 << 12);
            &&& (a >> 39) & 0x1FF == p4
            &&& (a >> 30) & 0x1FF == p3
            &&& (a >> 21) & 0x1FF == p2
            &&& (a >> 12) & 0x1FF == p1
        },
{
    assert((((addr >> 39) & 0x1FF) << 39) | (((addr >> 30) & 0x1FF) << 30) | (((addr >> 21) & 0x1FF) << 21)
        | (((addr >> 12) & 0x1FF) << 12) == addr & 0xFFFF_FFFF_F000) by (bit_vector);
    assert((p4 < 512 && p3 < 512 && p2 < 512 && p1 < 512) ==> {
        let a = (p4 << 39) | (p3 << 30) | (p2 << 21) | (p1 << 12);
        &&& (a >> 39) & 0x1FF == p4
        &&& (a >> 30) & 0x1FF == p3
        &&& (a >> 21) & 0x1FF == p2
        &&& (a >> 12) & 0x1FF == p1
    }) by (bit_vector);
}

/// A virtual page, named by its page-aligned start address.
#[derive(Debug, Clone, Copy)]
pub struct Page {
    addr: VirtAddr,
}

impl Page {
    /// The page's start address.
    pub closed spec fn start(&self) -> u64 {
        self.addr.0
    }

    /// The page containing `addr`.
    pub fn from_addr(addr: VirtAddr) -> (p: Self)
        ensures
            p.start() == page_floor(addr.0),
    {
        Page { addr: addr.page_align() }
    }

    /// The page with index `index`.
    pub fn from_index(index: u64) -> (p: Self)
        requires
            index * 4096 <= u64::MAX,
        ensures
            p.start() == index * 4096,
    {
        Page { addr: VirtAddr::new(index * PAGE_SIZE) }
    }

    /// The page's start address.
    pub fn addr(&self) -> (a: VirtAddr)
        ensures
            a.0 == self.start(),
    {
        self.addr
    }

    /// The PML4 index of the page.
    pub fn p4_index(&self) -> (i: usize)
        ensures
            i == table_index(self.start(), 39),
    {
        ((self.addr.as_u64() >> PML4_SHIFT) & 0x1FF) as usize
    }

    /// The PDPT index of the page.
    pub fn p3_index(&self) -> (i: usize)
        ensures
            i == table_index(self.start(), 30),
    {
        ((self.addr.as_u64() >> PDPT_SHIFT) & 0x1FF) as usize
    }

    /// The PD index of the page.
    pub fn p2_index(&self) -> (i: usize)
        ensures
            i == table_index(self.start(), 21),
    {
        ((self.addr.as_u64() >> PD_SHIFT) & 0x1FF) as usize
    }

    /// The PT index of the page.
    pub fn p1_index(&self) -> (i: usize)
        ensures
            i == table_index(self.start(), 12),
    {
        ((self.addr.as_u64() >> PT_SHIFT) & 0x1FF) as usize
    }
}

} // verus!
