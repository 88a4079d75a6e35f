//! The firmware memory map, as the boot loader summarizes it.

use vstd::prelude::*;

verus! {

/// The firmware's memory type for conventional, free memory.
pub const CONVENTIONAL_MEMORY: u32 = 7;

/// One memory map entry.
#[derive(Debug, Clone, Copy, PartialEq, Eq, Structural)]
pub struct MemoryMapEntry {
    pub phys_start: u64,
    pub virt_start: u64,
    pub page_count: u64,
    pub memory_type: u32,
    pub attributes: u64,
}

impl MemoryMapEntry {
    /// Size in bytes.
    pub fn size(&self) -> (n: u64)
        requires
            self.page_count * 4096 <= u64::MAX,
        ensures
            n == self.page_count * 4096,
    {
        self.page_count * 4096
    }

    /// The memory is conventional memory the kernel may use.
    pub fn is_usable(&self) -> (b: bool)
        ensures
            b == (self.memory_type == CONVENTIONAL_MEMORY),
    {
        self.memory_type == CONVENTIONAL_MEMORY
    }
}

/// What the boot loader learns from the memory map.
#[derive(Debug, Clone)]
pub struct MemoryInfo {
    pub total_usable: u64,
    pub entries: Vec<MemoryMapEntry>,
    pub largest_free_region: Option<MemoryMapEntry>,
}

/// Bytes of usable memory among the first `n` entries.
pub open spec fn usable_bytes(es: Seq<MemoryMapEntry>, n: nat) -> int
    decreases n,
{
    if n == 0 {
        0
    } else {
        usable_bytes(es, (n - 1) as nat) + (if es[n - 1].memory_type == CONVENTIONAL_MEMORY { es[n - 1].page_count * 4096 } else { 0 })
    }
}

/// The first usable entry among the first `n` of the largest non-zero
/// size, with that size; none and 0 if there is none.
pub open spec fn largest_usable(es: Seq<MemoryMapEntry>, n: nat) -> (Option<MemoryMapEntry>, int)
    decreases n,
{
    if n == 0 {
        (None, 0)
    } else {
        let prev = largest_usable(es, (n - 1) as nat);
        let e = es[n - 1];
        if e.memory_type == CONVENTIONAL_MEMORY && e.page_count * 4096 > prev.1 {
            (Some(e), e.page_count * 4096)
        } else {
            prev
        }
    }
}

/// Every usable entry's size fits, and so does the usable total.
pub open spec fn map_sizes_fit(es: Seq<MemoryMapEntry>) -> bool {
    &&& forall|i: int| 0 <= i < es.len() && (#[trigger] es[i]).memory_type == CONVENTIONAL_MEMORY ==> es[i].page_count * 4096 <= u64::MAX
    &&& usable_bytes(es, es.len()) <= u64::MAX
}

proof fn lemma_usable_prefix(es: Seq<MemoryMapEntry>, a: nat, b: nat)
    requires
        a <= b <= es.len(),
    ensures
        usable_bytes(es, a) <= usable_bytes(es, b),
    decreases b - a,
{
    if a < b {
        lemma_usable_prefix(es, a, (b - 1) as nat);
    }
}

/// Whether every usable entry's size, and the usable total, fit in 64
/// bits.
pub fn check_map_sizes_fit(entries: &Vec<MemoryMapEntry>) -> (b: bool)
    ensures
        b == map_sizes_fit(entries@),
{
    let mut total: u128 = 0;
    let mut i: usize = 0;
    while i < entries.len()
        invariant
            i <= entries@.len(),
            total == usable_bytes(entries@, i as nat),
            total <= u64::MAX,
            forall|j: int| 0 <= j < i && (#[trigger] entries@[j]).memory_type == CONVENTIONAL_MEMORY ==> entries@[j].page_count * 4096 <= u64::MAX,
        decreases entries@.len() - i,
    {
        let entry = entries[i];
        if entry.memory_type == CONVENTIONAL_MEMORY {
            let size = entry.page_count as u128 * 4096;
            if size > u64::MAX as u128 {
                assert(entries@[i as int].memory_type == CONVENTIONAL_MEMORY);
                return false;
            }
            total = total + size;
            if total > u64::MAX as u128 {
                proof {
                    lemma_usable_prefix(entries@, (i + 1) as nat, entries@.len());
                }
                return false;
            }
        }
        i += 1;
    }
    true
}

/// Summarize the memory map: all entries in order, the usable total, and
/// the largest usable entry (the first of its size).
pub fn summarize_memory_map(entries: Vec<MemoryMapEntry>) -> (m: MemoryInfo)
    requires
        map_sizes_fit(entries@),
    ensures
        m.entries@ == entries@,
        m.total_usable == usable_bytes(entries@, entries@.len()),
        m.largest_free_region == largest_usable(entries@, entries@.len()).0,
{
    let mut total_usable: u64 = 0;
    let mut largest_free: Option<MemoryMapEntry> = None;
    let mut largest_free_size: u64 = 0;
    let mut i: usize = 0;
    while i < entries.len()
        invariant
            i <= entries@.len(),
            map_sizes_fit(entries@),
            total_usable == usable_bytes(entries@, i as nat),
            (largest_free, largest_free_size as int) == largest_usable(entries@, i as nat),
        decreases entries@.len() - i,
    {
        let entry = entries[i];
        proof {
            lemma_usable_prefix(entries@, (i + 1) as nat, entries@.len());
        }
        if entry.is_usable() {
            total_usable = total_usable + entry.size();
            if entry.size() > largest_free_size {
                largest_free_size = entry.size();
                largest_free = Some(entry);
            }
        }
        i += 1;
    }
    MemoryInfo { total_usable, entries, largest_free_region: largest_free }
}

} // verus!
