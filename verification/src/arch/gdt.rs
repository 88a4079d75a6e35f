//! The global descriptor table and the task state segment.

use vstd::prelude::*;

verus! {

/// Entries in the table.
pub const GDT_ENTRIES: usize = 7;
/// Bytes in a task state segment.
pub const TSS_SIZE: u64 = 104;

/// A 64-bit descriptor.
#[derive(Debug, Clone, Copy, PartialEq, Eq, Structural)]
pub struct GdtEntry(pub u64);

impl GdtEntry {
    /// The null descriptor.
    pub fn null() -> (e: Self)
        ensures
            e.0 == 0,
    {
        GdtEntry(0)
    }

    /// The kernel code segment (ring 0, long mode).
    pub fn kernel_code() -> (e: Self)
        ensures
            e.0 == 0x00AF9A000000FFFF,
    {
        GdtEntry(0x00AF9A000000FFFF)
    }

    /// The kernel data segment (ring 0).
    pub fn kernel_data() -> (e: Self)
        ensures
            e.0 == 0x00CF92000000FFFF,
    {
        GdtEntry(0x00CF92000000FFFF)
    }

    /// The user code segment (ring 3, long mode).
    pub fn user_code() -> (e: Self)
        ensures
            e.0 == 0x00AFFA000000FFFF,
    {
        GdtEntry(0x00AFFA000000FFFF)
    }

    /// The user data segment (ring 3).
    pub fn user_data() -> (e: Self)
        ensures
            e.0 == 0x00CFF2000000FFFF,
    {
        GdtEntry(0x00CFF2000000FFFF)
    }
}

/// The low word of the descriptor of a TSS at `addr`: limit 103, type
/// 0x89 (present, available 64-bit TSS), and the low 32 bits of the base.
pub open spec fn tss_low_word(addr: u64) -> u64 {
    let base_low = (addr & 0xFFFF) << 16;
    let base_mid = ((addr >> 16) & 0xFF) << 32;
    let base_high = ((addr >> 24) & 0xFF) << 56;
    103u64 | base_low | base_mid | (0x89u64 << 40) | base_high
}

/// The table: null, kernel code, kernel data, user code, user data, and
/// two words for the TSS descriptor.
pub struct Gdt {
    pub entries: Vec<GdtEntry>,
}

impl Gdt {
    /// The standard table with an empty TSS descriptor.
    pub fn new() -> (g: Self)
        ensures
            g.entries@ == seq![GdtEntry(0), GdtEntry(0x00AF9A000000FFFF), GdtEntry(0x00CF92000000FFFF),
                GdtEntry(0x00AFFA000000FFFF), GdtEntry(0x00CFF2000000FFFF), GdtEntry(0), GdtEntry(0)],
    {
        let mut entries: Vec<GdtEntry> = Vec::new();
        entries.push(GdtEntry::null());
        entries.push(GdtEntry::kernel_code());
        entries.push(GdtEntry::kernel_data());
        entries.push(GdtEntry::user_code());
        entries.push(GdtEntry::user_data());
        entries.push(GdtEntry::null());
        entries.push(GdtEntry::null());
        assert(entries@ =~= seq![GdtEntry(0), GdtEntry(0x00AF9A000000FFFF), GdtEntry(0x00CF92000000FFFF),
            GdtEntry(0x00AFFA000000FFFF), GdtEntry(0x00CFF2000000FFFF), GdtEntry(0), GdtEntry(0)]);
        Gdt { entries }
    }

    /// Point the TSS descriptor (entries 5 and 6) at a TSS at `tss_addr`.
    pub fn set_tss(&mut self, tss_addr: u64)
        requires
            old(self).entries@.len() == GDT_ENTRIES,
        ensures
            final(self).entries@ == old(self).entries@.update(5, GdtEntry(tss_low_word(tss_addr))).update(6, GdtEntry(tss_addr >> 32)),
    {
        let limit: u64 = TSS_SIZE - 1;
        let base_low = (tss_addr & 0xFFFF) << 16;
        let base_mid = ((tss_addr >> 16) & 0xFF) << 32;
        let base_high = ((tss_addr >> 24) & 0xFF) << 56;
        let limit_low = limit & 0xFFFF;
        let limit_high = ((limit >> 16) & 0xF) << 48;
        let low = limit_low | base_low | base_mid | (0x89u64 << 40) | limit_high | base_high;
        assert(low == 103u64 | base_low | base_mid | (0x89u64 << 40) | base_high) by (bit_vector)
            requires
                limit == 103,
                limit_low == limit & 0xFFFF,
                limit_high == ((limit >> 16) & 0xF) << 48,
                low == limit_low | base_low | base_mid | (0x89u64 << 40) | limit_high | base_high,
        ;
        let high = tss_addr >> 32;
        self.entries.set(5, GdtEntry(low));
        self.entries.set(6, GdtEntry(high));
    }
}

/// The TSS descriptor words give back the address they were made from,
/// the limit and the type.
pub proof fn lemma_tss_descriptor_base(addr: u64)
    ensures
        ((tss_low_word(addr) >> 16) & 0xFF_FFFF) | (((tss_low_word(addr) >> 56) & 0xFF) << 24) | ((addr >> 32) << 32) == addr,
        tss_low_word(addr) & 0xFFFF == 103,
        (tss_low_word(addr) >> 40) & 0xFF == 0x89,
{
    let low = tss_low_word(addr);
    let b0 = (addr & 0xFFFF) << 16;
    let b1 = ((addr >> 16) & 0xFF) << 32;
    let b2 = ((addr >> 24) & 0xFF) << 56;
    assert(((low >> 16) & 0xFF_FFFF) | (((low >> 56) & 0xFF) << 24) | ((addr >> 32) << 32) == addr
        && low & 0xFFFF == 103 && (low >> 40) & 0xFF == 0x89) by (bit_vector)
        requires
            b0 == (addr & 0xFFFF) << 16,
            b1 == ((addr >> 16) & 0xFF) << 32,
            b2 == ((addr >> 24) & 0xFF) << 56,
            low == 103u64 | b0 | b1 | (0x89u64 << 40) | b2,
    ;
}

/// The task state segment.
#[derive(Debug, Clone)]
pub struct Tss {
    /// Stack pointers for privilege levels 0 to 2.
    pub rsp: Vec<u64>,
    /// Interrupt stack table, entries 1 to 7.
    pub ist: Vec<u64>,
    /// Offset of the I/O permission map.
    pub iomap_base: u16,
}

impl Tss {
    /// A TSS with every stack zero and no I/O map.
    pub fn new() -> (t: Self)
        ensures
            t.rsp@ == seq![0u64, 0, 0],
            t.ist@ == seq![0u64, 0, 0, 0, 0, 0, 0],
            t.iomap_base == 104,
    {
        let mut rsp: Vec<u64> = Vec::new();
        rsp.push(0);
        rsp.push(0);
        rsp.push(0);
        let mut ist: Vec<u64> = Vec::new();
        let mut i: usize = 0;
        while i < 7
            invariant
                i <= 7,
                ist@.len() == i,
                forall|k: int| 0 <= k < i ==> #[trigger] ist@[k] == 0,
            decreases 7 - i,
        {
            ist.push(0);
            i += 1;
        }
        assert(rsp@ =~= seq![0u64, 0, 0]);
        assert(ist@ =~= seq![0u64, 0, 0, 0, 0, 0, 0]);
        Tss { rsp, ist, iomap_base: TSS_SIZE as u16 }
    }

    /// Set the stack for privilege level `privilege`; ignored above 2.
    pub fn set_rsp(&mut self, privilege: usize, stack: u64)
        requires
            old(self).rsp@.len() == 3,
        ensures
            final(self).ist == old(self).ist,
            final(self).iomap_base == old(self).iomap_base,
            final(self).rsp@ == (if privilege < 3 { old(self).rsp@.update(privilege as int, stack) } else { old(self).rsp@ }),
    {
        if privilege < 3 {
            self.rsp.set(privilege, stack);
        }
    }

    /// Set interrupt stack `index` (1 to 7); other indices are ignored.
    pub fn set_ist(&mut self, index: usize, stack: u64)
        requires
            old(self).ist@.len() == 7,
        ensures
            final(self).rsp == old(self).rsp,
            final(self).iomap_base == old(self).iomap_base,
            final(self).ist@ == (if 0 < index <= 7 { old(self).ist@.update(index - 1, stack) } else { old(self).ist@ }),
    {
        if index > 0 && index <= 7 {
            self.ist.set(index - 1, stack);
        }
    }
}

/// The GDT register image.
#[derive(Debug, Clone, Copy)]
pub struct Gdtr {
    pub limit: u16,
    pub base: u64,
}

impl Gdtr {
    /// The register image for a table of seven descriptors at `gdt_addr`.
    pub fn new(gdt_addr: u64) -> (r: Self)
        ensures
            r.limit == 55,
            r.base == gdt_addr,
    {
        Gdtr { limit: (GDT_ENTRIES * 8 - 1) as u16, base: gdt_addr }
    }
}

/// A segment selector.
#[derive(Debug, Clone, Copy, PartialEq, Eq, Structural)]
pub struct SegmentSelector(pub u16);

impl SegmentSelector {
    /// The kernel code selector.
    #[allow(non_snake_case)]
    #[verifier::allow_in_spec]
    pub fn KERNEL_CODE() -> Self
        returns
            SegmentSelector(0x08),
    {
        SegmentSelector(0x08)
    }

    /// The kernel data selector.
    #[allow(non_snake_case)]
    #[verifier::allow_in_spec]
    pub fn KERNEL_DATA() -> Self
        returns
            SegmentSelector(0x10),
    {
        SegmentSelector(0x10)
    }

    /// The user code selector, requested privilege 3.
    #[allow(non_snake_case)]
    #[verifier::allow_in_spec]
    pub fn USER_CODE() -> Self
        returns
            SegmentSelector(0x1B),
    {
        SegmentSelector(0x1B)
    }

    /// The user data selector, requested privilege 3.
    #[allow(non_snake_case)]
    #[verifier::allow_in_spec]
    pub fn USER_DATA() -> Self
        returns
            SegmentSelector(0x23),
    {
        SegmentSelector(0x23)
    }

    /// The TSS selector.
    #[allow(non_snake_case)]
    #[verifier::allow_in_spec]
    pub fn TSS() -> Self
        returns
            SegmentSelector(0x28),
    {
        SegmentSelector(0x28)
    }
}

} // verus!
