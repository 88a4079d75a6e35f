//! Mapping virtual pages through four-level page tables.
//!
//! The mapper walks the PML4, PDPT, PD and PT levels of one address
//! space.  The tables live in physical frames; the mapper holds them as
//! the words of each table frame, by the frame's address, which is what
//! an entry refers to.  Frames for new tables come from a supply handed
//! to the mapper when it is made.  After a change to a mapping the caller
//! invalidates the translation cached for that address.

use crate::arch::{PhysAddr, VirtAddr};
use crate::keyed::{Keyed, KeyedMap};
use crate::memory::error::MemoryError;
use crate::memory::frame::PhysFrame;
use crate::memory::page_table::{
    indexed_bits, lemma_indices_round_trip, page_table_indices, table_index, PageTableEntry, PageTableFlags, ALL_PAGE_FLAGS, ENTRY_ADDR_MASK,
    PAGE_TABLE_ENTRIES,
};
use vstd::prelude::*;

verus! {

/// The result of looking an address up.
#[derive(Debug, Clone, Copy)]
pub struct PageQuery {
    pub present: bool,
    pub frame: Option<PhysFrame>,
    pub flags: PageTableFlags,
}

/// The present bit of an entry word.
pub open spec fn entry_present(e: u64) -> bool {
    e & 1 != 0
}

/// The huge-page bit of an entry word.
pub open spec fn entry_huge(e: u64) -> bool {
    e & 128 != 0
}

/// The address an entry word refers to.
pub open spec fn entry_target(e: u64) -> u64 {
    e & ENTRY_ADDR_MASK
}

/// The base-page frame an entry word names.
pub open spec fn entry_frame(e: u64) -> PhysFrame {
    PhysFrame { start: PhysAddr(e & ENTRY_ADDR_MASK), order: 0 }
}

/// The defined flags of an entry word.
pub open spec fn entry_flags(e: u64) -> PageTableFlags {
    PageTableFlags(e & ALL_PAGE_FLAGS)
}

/// The words of a cleared table.
pub open spec fn zero_table() -> Seq<u64> {
    Seq::new(512, |i: int| 0u64)
}

/// The answer for an address with no mapping.
pub open spec fn unmapped_query() -> PageQuery {
    PageQuery { present: false, frame: None, flags: PageTableFlags(0) }
}

/// Word `i` of the table in frame `f`.
pub open spec fn word(mem: Map<u64, Seq<u64>>, f: u64, i: usize) -> u64 {
    mem[f][i as int]
}

/// The table memory with word `i` of frame `f` replaced by `w`.
pub open spec fn with_word(mem: Map<u64, Seq<u64>>, f: u64, i: usize, w: u64) -> Map<u64, Seq<u64>> {
    mem.insert(f, mem[f].update(i as int, w))
}

/// What a lookup of `v` finds, walking from the root table `root`: the
/// leaf entry, or a huge page entry at the PD level, or nothing where an
/// entry on the way is not present.
pub open spec fn query_walk(mem: Map<u64, Seq<u64>>, root: u64, v: u64) -> PageQuery {
    let e4 = word(mem, root, table_index(v, 39));
    if !entry_present(e4) {
        unmapped_query()
    } else {
        let e3 = word(mem, entry_target(e4), table_index(v, 30));
        if !entry_present(e3) {
            unmapped_query()
        } else {
            let e2 = word(mem, entry_target(e3), table_index(v, 21));
            if !entry_present(e2) {
                unmapped_query()
            } else if entry_huge(e2) {
                PageQuery { present: true, frame: Some(entry_frame(e2)), flags: entry_flags(e2) }
            } else {
                let e1 = word(mem, entry_target(e2), table_index(v, 12));
                PageQuery {
                    present: entry_present(e1),
                    frame: if entry_present(e1) { Some(entry_frame(e1)) } else { None },
                    flags: entry_flags(e1),
                }
            }
        }
    }
}

/// The frame a lookup of `v` translates to.
pub open spec fn translate_walk(mem: Map<u64, Seq<u64>>, root: u64, v: u64) -> Option<PhysFrame> {
    let q = query_walk(mem, root, v);
    if q.present { q.frame } else { None }
}

/// The page table holding the leaf entry of `v`: not mapped where an entry
/// on the way is not present, already mapped where the PD entry is a
/// huge page.
pub open spec fn leaf_table(mem: Map<u64, Seq<u64>>, root: u64, v: u64) -> Result<u64, MemoryError> {
    let e4 = word(mem, root, table_index(v, 39));
    if !entry_present(e4) {
        Err(MemoryError::NotMapped)
    } else {
        let e3 = word(mem, entry_target(e4), table_index(v, 30));
        if !entry_present(e3) {
            Err(MemoryError::NotMapped)
        } else {
            let e2 = word(mem, entry_target(e3), table_index(v, 21));
            if !entry_present(e2) {
                Err(MemoryError::NotMapped)
            } else if entry_huge(e2) {
                Err(MemoryError::AlreadyMapped)
            } else {
                Ok(entry_target(e2))
            }
        }
    }
}

/// Unmapping `v`: the leaf entry is cleared and its frame returned; not
/// mapped where the leaf entry is not present.
pub open spec fn unmap_walk(mem: Map<u64, Seq<u64>>, root: u64, v: u64) -> (Map<u64, Seq<u64>>, Result<PhysFrame, MemoryError>) {
    match leaf_table(mem, root, v) {
        Err(e) => (mem, Err(e)),
        Ok(t1) => {
            let e1 = word(mem, t1, table_index(v, 12));
            if !entry_present(e1) {
                (mem, Err(MemoryError::NotMapped))
            } else {
                (with_word(mem, t1, table_index(v, 12), 0), Ok(entry_frame(e1)))
            }
        },
    }
}

/// Changing the flags of `v`: the leaf entry keeps its address and gets
/// `flags` with the present bit.
pub open spec fn update_walk(mem: Map<u64, Seq<u64>>, root: u64, v: u64, flags: u64) -> (Map<u64, Seq<u64>>, Result<(), MemoryError>) {
    match leaf_table(mem, root, v) {
        Err(e) => (mem, Err(e)),
        Ok(t1) => {
            let e1 = word(mem, t1, table_index(v, 12));
            if !entry_present(e1) {
                (mem, Err(MemoryError::NotMapped))
            } else {
                (with_word(mem, t1, table_index(v, 12), entry_target(e1) | (flags | 1)), Ok(()))
            }
        },
    }
}

/// One step down from entry `i` of table `f`: where the entry is not
/// present, the last frame of the supply becomes a cleared table and the
/// entry points at it, present and writable (allocation fails on an empty
/// supply); with `check_huge`, a huge entry stops the walk as already
/// mapped.  Gives the tables, the supply and the next table's frame.
pub open spec fn child_step(mem: Map<u64, Seq<u64>>, pool: Seq<u64>, f: u64, i: usize, check_huge: bool) -> (Map<u64, Seq<u64>>, Seq<u64>, Result<u64, MemoryError>) {
    let e = word(mem, f, i);
    if !entry_present(e) {
        if pool.len() == 0 {
            (mem, pool, Err(MemoryError::FrameAllocationFailed))
        } else {
            let p = pool.last();
            let m2 = with_word(mem.insert(p, zero_table()), f, i, p | 3);
            let e2 = p | 3;
            (m2, pool.drop_last(), if check_huge && entry_huge(e2) { Err(MemoryError::AlreadyMapped) } else { Ok(entry_target(e2)) })
        }
    } else if check_huge && entry_huge(e) {
        (mem, pool, Err(MemoryError::AlreadyMapped))
    } else {
        (mem, pool, Ok(entry_target(e)))
    }
}

/// The levels of the tables after `child_step`: a new table sits one
/// level below the table that points at it.
pub open spec fn levels_after(levels: Map<u64, int>, mem: Map<u64, Seq<u64>>, pool: Seq<u64>, f: u64, i: usize) -> Map<u64, int> {
    if !entry_present(word(mem, f, i)) && pool.len() > 0 {
        levels.insert(pool.last(), levels[f] - 1)
    } else {
        levels
    }
}

/// Mapping `v` to the frame at `start` with `flags`: the missing tables
/// on the way are made, then the leaf entry, which must not be present,
/// gets the frame and `flags` with the present bit.  Tables made before a
/// failure stay.  Gives the tables, the supply and the outcome.
pub open spec fn map_walk(mem: Map<u64, Seq<u64>>, pool: Seq<u64>, root: u64, v: u64, start: u64, flags: u64) -> (Map<u64, Seq<u64>>, Seq<u64>, Result<(), MemoryError>) {
    let (m1, p1, r1) = child_step(mem, pool, root, table_index(v, 39), false);
    match r1 {
        Err(e) => (m1, p1, Err(e)),
        Ok(t3) => {
            let (m2, p2, r2) = child_step(m1, p1, t3, table_index(v, 30), true);
            match r2 {
                Err(e) => (m2, p2, Err(e)),
                Ok(t2) => {
                    let (m3, p3, r3) = child_step(m2, p2, t2, table_index(v, 21), true);
                    match r3 {
                        Err(e) => (m3, p3, Err(e)),
                        Ok(t1) => {
                            if entry_present(word(m3, t1, table_index(v, 12))) {
                                (m3, p3, Err(MemoryError::AlreadyMapped))
                            } else {
                                (with_word(m3, t1, table_index(v, 12), start | (flags | 1)), p3, Ok(()))
                            }
                        },
                    }
                },
            }
        },
    }
}

/// An entry of a table at `level` that the walk follows to a lower table:
/// a present entry of the PML4 or PDPT, a present non-huge entry of a PD.
pub open spec fn links(level: int, e: u64) -> bool {
    level >= 2 && entry_present(e) && !(level == 2 && entry_huge(e))
}

/// No two followed entries lead to the same table.
#[verifier::opaque]
pub open spec fn links_unique(mem: Map<u64, Seq<u64>>, levels: Map<u64, int>) -> bool {
    forall|f1: u64, i1: int, f2: u64, i2: int|
        mem.contains_key(f1) && mem.contains_key(f2) && 0 <= i1 < 512 && 0 <= i2 < 512
            && links(levels[f1], #[trigger] mem[f1][i1]) && links(levels[f2], #[trigger] mem[f2][i2])
            && entry_target(mem[f1][i1]) == entry_target(mem[f2][i2]) ==> f1 == f2 && i1 == i2
}

/// The tables form a walkable hierarchy: the root is a PML4 (level 4),
/// every table has 512 words, every followed entry leads to a table one
/// level down, no two such entries lead to the same table, and the supply
/// holds distinct page-aligned frames that are not tables.
pub open spec fn tables_wf(mem: Map<u64, Seq<u64>>, pool: Seq<u64>, root: u64, levels: Map<u64, int>) -> bool {
    &&& mem.contains_key(root)
    &&& levels.dom() == mem.dom()
    &&& levels[root] == 4
    &&& forall|f: u64| #[trigger] mem.contains_key(f) ==> mem[f].len() == 512 && 1 <= levels[f] <= 4
    &&& forall|f: u64, i: int|
        mem.contains_key(f) && 0 <= i < 512 && links(levels[f], #[trigger] mem[f][i]) ==> {
            &&& mem.contains_key(entry_target(mem[f][i]))
            &&& levels[entry_target(mem[f][i])] == levels[f] - 1
        }
    &&& links_unique(mem, levels)
    &&& pool.no_duplicates()
    &&& forall|k: int| 0 <= k < pool.len() ==> !mem.contains_key(#[trigger] pool[k]) && pool[k] & 0xFFF == 0
}

/// A fresh table entry `p | 3` for a page-aligned `p` is present, not
/// huge, and points at `p`.
pub proof fn lemma_table_entry(p: u64)
    requires
        p & 0xFFF == 0,
    ensures
        entry_present(p | 3),
        !entry_huge(p | 3),
        entry_target(p | 3) == p,
{
    assert(p & 0xFFF == 0 ==> ((p | 3) & 1 != 0 && (p | 3) & 128 == 0 && (p | 3) & 0xFFFF_FFFF_FFFF_F000u64 == p)) by (bit_vector);
}

/// One step down keeps the hierarchy walkable; on success the entry now
/// leads, not huge where checked, to the next table one level down; only
/// the table stepped from changes, and a table made is new.
pub proof fn lemma_child_step(mem: Map<u64, Seq<u64>>, pool: Seq<u64>, root: u64, levels: Map<u64, int>, f: u64, i: usize, check_huge: bool)
    requires
        tables_wf(mem, pool, root, levels),
        mem.contains_key(f),
        levels[f] >= 2,
        levels[f] == 2 ==> check_huge,
        i < 512,
    ensures
        ({
            let (m2, p2, r) = child_step(mem, pool, f, i, check_huge);
            let l2 = levels_after(levels, mem, pool, f, i);
            &&& tables_wf(m2, p2, root, l2)
            &&& m2.contains_key(f)
            &&& forall|g: u64| mem.contains_key(g) ==> #[trigger] m2.contains_key(g) && l2[g] == levels[g]
            &&& forall|g: u64| g != f && mem.contains_key(g) ==> #[trigger] m2[g] == mem[g]
            &&& m2[f].len() == 512
            &&& forall|j: int| 0 <= j < 512 && j != i ==> #[trigger] m2[f][j] == mem[f][j]
            &&& r matches Ok(c) ==> {
                &&& m2.contains_key(c)
                &&& l2[c] == levels[f] - 1
                &&& entry_present(word(m2, f, i))
                &&& entry_target(word(m2, f, i)) == c
                &&& check_huge ==> !entry_huge(word(m2, f, i))
            }
        }),
{
    let e = word(mem, f, i);
    if !entry_present(e) && pool.len() > 0 {
        let p = pool.last();
        assert(pool[pool.len() - 1] == p);
        lemma_table_entry(p);
        let m1 = mem.insert(p, zero_table());
        let m2 = with_word(m1, f, i, p | 3);
        let p2 = pool.drop_last();
        let l2 = levels.insert(p, levels[f] - 1);
        assert(p != f);
        assert(l2.dom() == m2.dom());
        assert forall|g: u64| #[trigger] m2.contains_key(g) implies m2[g].len() == 512 && 1 <= l2[g] <= 4 by {
            if g != p && g != f {
                assert(mem.contains_key(g));
            }
        }
        assert forall|g: u64, j: int|
            m2.contains_key(g) && 0 <= j < 512 && links(l2[g], #[trigger] m2[g][j]) implies {
                &&& m2.contains_key(entry_target(m2[g][j]))
                &&& l2[entry_target(m2[g][j])] == l2[g] - 1
            } by {
            if g == p {
                assert(m2[g][j] == 0u64);
                assert(!entry_present(0u64)) by (bit_vector);
            } else if g == f && j == i {
            } else {
                assert(mem.contains_key(g));
                assert(m2[g][j] == mem[g][j]);
                assert(links(levels[g], mem[g][j]));
                let t = entry_target(mem[g][j]);
                assert(mem.contains_key(t));
                assert(t != p);
            }
        }
        assert(links_unique(m2, l2)) by {
            reveal(links_unique);
            assert forall|f1: u64, j1: int, f2: u64, j2: int|
                m2.contains_key(f1) && m2.contains_key(f2) && 0 <= j1 < 512 && 0 <= j2 < 512
                    && links(l2[f1], #[trigger] m2[f1][j1]) && links(l2[f2], #[trigger] m2[f2][j2])
                    && entry_target(m2[f1][j1]) == entry_target(m2[f2][j2]) implies f1 == f2 && j1 == j2 by {
                assert(m2[p][j1] == 0u64 && m2[p][j2] == 0u64);
                assert(!entry_present(0u64)) by (bit_vector);
                let new1 = f1 == f && j1 == i;
                let new2 = f2 == f && j2 == i;
                if !new1 {
                    assert(f1 != p);
                    assert(m2[f1][j1] == mem[f1][j1]);
                    assert(links(levels[f1], mem[f1][j1]));
                    assert(mem.contains_key(entry_target(mem[f1][j1])));
                }
                if !new2 {
                    assert(f2 != p);
                    assert(m2[f2][j2] == mem[f2][j2]);
                    assert(links(levels[f2], mem[f2][j2]));
                    assert(mem.contains_key(entry_target(mem[f2][j2])));
                }
                if !new1 && !new2 {
                    assert(links(levels[f1], mem[f1][j1]) && links(levels[f2], mem[f2][j2]));
                }
            }
        }
        assert forall|k: int| 0 <= k < p2.len() implies !m2.contains_key(#[trigger] p2[k]) && p2[k] & 0xFFF == 0 by {
            assert(p2[k] == pool[k]);
            assert(pool[k] != pool[pool.len() - 1]);
        }
        assert(p2.no_duplicates()) by {
            assert forall|a: int, b: int| 0 <= a < b < p2.len() implies p2[a] != p2[b] by {
                assert(p2[a] == pool[a] && p2[b] == pool[b]);
            }
        }
    } else if !entry_present(e) {
    } else {
        if !(check_huge && entry_huge(e)) {
            assert(links(levels[f], mem[f][i as int]));
        }
    }
}

/// The four table indices of an address are below 512.
pub proof fn lemma_index_bounds(v: u64)
    ensures
        table_index(v, 39) < 512,
        table_index(v, 30) < 512,
        table_index(v, 21) < 512,
        table_index(v, 12) < 512,
{
    assert(forall|s: u64| (v >> s) & 0x1FF < 512) by (bit_vector);
}

/// The entry a mapping writes, `start | flags | PRESENT`, is present.
pub proof fn lemma_leaf_present(start: u64, flags: u64)
    ensures
        entry_present(start | (flags | 1)),
{
    assert((start | (flags | 1)) & 1 != 0) by (bit_vector);
}

/// Making a table on the way changes no lookup: an address whose walk
/// read the entry found it not present before and finds a cleared table
/// after; every other walk reads only words that stay.
pub proof fn lemma_step_keeps_queries(mem: Map<u64, Seq<u64>>, pool: Seq<u64>, root: u64, levels: Map<u64, int>, f: u64, i: usize, check_huge: bool, u: u64)
    requires
        tables_wf(mem, pool, root, levels),
        mem.contains_key(f),
        levels[f] >= 2,
        levels[f] == 2 ==> check_huge,
        i < 512,
    ensures
        query_walk(child_step(mem, pool, f, i, check_huge).0, root, u) == query_walk(mem, root, u),
{
    lemma_index_bounds(u);
    let e = word(mem, f, i);
    if !entry_present(e) && pool.len() > 0 {
        let p = pool.last();
        assert(pool[pool.len() - 1] == p);
        lemma_table_entry(p);
        assert(!entry_present(0u64) && 0u64 & ALL_PAGE_FLAGS == 0) by (bit_vector);
        let m2 = child_step(mem, pool, f, i, check_huge).0;
        assert(m2 == with_word(mem.insert(p, zero_table()), f, i, p | 3));
        assert(m2[p] == zero_table());
        let a4 = table_index(u, 39);
        let a3 = table_index(u, 30);
        let a2 = table_index(u, 21);
        let a1 = table_index(u, 12);
        let e4 = mem[root][a4 as int];
        if !(root == f && a4 == i) {
            assert(m2[root][a4 as int] == e4);
            if entry_present(e4) {
                assert(links(levels[root], e4));
                let t3 = entry_target(e4);
                let e3 = mem[t3][a3 as int];
                assert(t3 != p);
                if !(t3 == f && a3 == i) {
                    assert(m2[t3][a3 as int] == e3);
                    if entry_present(e3) {
                        assert(links(levels[t3], e3));
                        let t2 = entry_target(e3);
                        let e2 = mem[t2][a2 as int];
                        assert(t2 != p);
                        if !(t2 == f && a2 == i) {
                            assert(m2[t2][a2 as int] == e2);
                            if entry_present(e2) && !entry_huge(e2) {
                                assert(links(levels[t2], e2));
                                let t1 = entry_target(e2);
                                assert(t1 != p && t1 != f);
                                assert(m2[t1][a1 as int] == mem[t1][a1 as int]);
                            }
                        }
                    }
                }
            }
        }
    }
}

/// The levels of the tables after the table-making steps of `map_walk`.
pub open spec fn map_levels(levels: Map<u64, int>, mem: Map<u64, Seq<u64>>, pool: Seq<u64>, root: u64, v: u64) -> Map<u64, int> {
    let (m1, p1, r1) = child_step(mem, pool, root, table_index(v, 39), false);
    let l1 = levels_after(levels, mem, pool, root, table_index(v, 39));
    match r1 {
        Err(_) => l1,
        Ok(t3) => {
            let (m2, p2, r2) = child_step(m1, p1, t3, table_index(v, 30), true);
            let l2 = levels_after(l1, m1, p1, t3, table_index(v, 30));
            match r2 {
                Err(_) => l2,
                Ok(t2) => levels_after(l2, m2, p2, t2, table_index(v, 21)),
            }
        },
    }
}

/// Where the walk to the leaf of `v` succeeds, that PT is a level-1
/// table, and writing `w` into the leaf entry leaves the walk as it was
/// and makes a lookup of `v` find `w`.
pub proof fn lemma_leaf_write_query(mem: Map<u64, Seq<u64>>, pool: Seq<u64>, root: u64, levels: Map<u64, int>, v: u64, w: u64)
    requires
        tables_wf(mem, pool, root, levels),
    ensures
        leaf_table(mem, root, v) matches Ok(t1) ==> {
            let i1 = table_index(v, 12);
            let m = with_word(mem, t1, i1, w);
            &&& mem.contains_key(t1)
            &&& levels[t1] == 1
            &&& leaf_table(m, root, v) == leaf_table(mem, root, v)
            &&& query_walk(mem, root, v) == (PageQuery {
                present: entry_present(word(mem, t1, i1)),
                frame: if entry_present(word(mem, t1, i1)) { Some(entry_frame(word(mem, t1, i1))) } else { None },
                flags: entry_flags(word(mem, t1, i1)),
            })
            &&& query_walk(m, root, v) == (PageQuery {
                present: entry_present(w),
                frame: if entry_present(w) { Some(entry_frame(w)) } else { None },
                flags: entry_flags(w),
            })
        },
{
    lemma_index_bounds(v);
    let i4 = table_index(v, 39);
    let i3 = table_index(v, 30);
    let i2 = table_index(v, 21);
    let i1 = table_index(v, 12);
    if let Ok(t1) = leaf_table(mem, root, v) {
        let e4 = mem[root][i4 as int];
        assert(links(levels[root], e4));
        let t3 = entry_target(e4);
        let e3 = mem[t3][i3 as int];
        assert(links(levels[t3], e3));
        let t2 = entry_target(e3);
        let e2 = mem[t2][i2 as int];
        assert(links(levels[t2], e2));
        assert(t1 == entry_target(e2));
        let m = with_word(mem, t1, i1, w);
        assert(m[root] == mem[root]);
        assert(m[t3] == mem[t3]);
        assert(m[t2] == mem[t2]);
        assert(m[t1][i1 as int] == w);
    }
}

/// Addresses on the same page have the same four table indices.
pub proof fn lemma_same_indices(u: u64, v: u64)
    requires
        table_index(u, 39) == table_index(v, 39),
        table_index(u, 30) == table_index(v, 30),
        table_index(u, 21) == table_index(v, 21),
        table_index(u, 12) == table_index(v, 12),
    ensures
        indexed_bits(u) == indexed_bits(v),
{
    lemma_indices_round_trip(u, 0, 0, 0, 0);
    lemma_indices_round_trip(v, 0, 0, 0, 0);
    assert(forall|x: u64, s: u64| (x >> s) & 0x1FF < 512) by (bit_vector);
    assert((u >> 39) & 0x1FF == (v >> 39) & 0x1FF);
    assert((u >> 30) & 0x1FF == (v >> 30) & 0x1FF);
    assert((u >> 21) & 0x1FF == (v >> 21) & 0x1FF);
    assert((u >> 12) & 0x1FF == (v >> 12) & 0x1FF);
}

/// Writing the leaf entry of `v` changes no lookup of an address on
/// another page: its walk cannot reach that entry, since every table has
/// one entry leading to it.
pub proof fn lemma_leaf_write_others(mem: Map<u64, Seq<u64>>, pool: Seq<u64>, root: u64, levels: Map<u64, int>, v: u64, w: u64, u: u64)
    requires
        tables_wf(mem, pool, root, levels),
        leaf_table(mem, root, v) is Ok,
        indexed_bits(u) != indexed_bits(v),
    ensures
        leaf_table(mem, root, v) matches Ok(t1) ==> query_walk(with_word(mem, t1, table_index(v, 12), w), root, u) == query_walk(mem, root, u),
{
    lemma_index_bounds(v);
    lemma_index_bounds(u);
    lemma_leaf_write_query(mem, pool, root, levels, v, w);
    if let Ok(t1) = leaf_table(mem, root, v) {
        let i4 = table_index(v, 39);
        let i3 = table_index(v, 30);
        let i2 = table_index(v, 21);
        let i1 = table_index(v, 12);
        let a4 = table_index(u, 39);
        let a3 = table_index(u, 30);
        let a2 = table_index(u, 21);
        let a1 = table_index(u, 12);
        let m = with_word(mem, t1, i1, w);
        let t3 = entry_target(mem[root][i4 as int]);
        let t2 = entry_target(mem[t3][i3 as int]);
        assert(links(levels[root], mem[root][i4 as int]));
        assert(links(levels[t3], mem[t3][i3 as int]));
        assert(links(levels[t2], mem[t2][i2 as int]));
        assert(t1 == entry_target(mem[t2][i2 as int]));
        assert(m[root] == mem[root]);
        let e4 = mem[root][a4 as int];
        if entry_present(e4) {
            assert(links(levels[root], e4));
            let u3 = entry_target(e4);
            assert(levels[u3] == 3);
            assert(m[u3] == mem[u3]);
            let e3 = mem[u3][a3 as int];
            if entry_present(e3) {
                assert(links(levels[u3], e3));
                let u2 = entry_target(e3);
                assert(levels[u2] == 2);
                assert(m[u2] == mem[u2]);
                let e2 = mem[u2][a2 as int];
                if entry_present(e2) && !entry_huge(e2) {
                    assert(links(levels[u2], e2));
                    let u1 = entry_target(e2);
                    if u1 == t1 && a1 == i1 {
                        reveal(links_unique);
                        assert(u2 == t2 && a2 == i2);
                        assert(u3 == t3 && a3 == i3);
                        assert(a4 == i4);
                        lemma_same_indices(u, v);
                    }
                    assert(m[u1][a1 as int] == mem[u1][a1 as int]);
                }
            }
        }
    }
}

/// After a successful mapping of `v`, looking `v` up finds the entry the
/// mapping wrote (present, the mapped frame, the flags plus the present
/// bit), the walk to the leaf succeeds, and the tables stay walkable.
pub proof fn lemma_map_then_query(mem: Map<u64, Seq<u64>>, pool: Seq<u64>, root: u64, levels: Map<u64, int>, v: u64, start: u64, flags: u64)
    requires
        tables_wf(mem, pool, root, levels),
    ensures
        ({
            let (m, p, r) = map_walk(mem, pool, root, v, start, flags);
            let w = start | (flags | 1);
            r is Ok ==> {
                &&& query_walk(m, root, v) == (PageQuery { present: true, frame: Some(entry_frame(w)), flags: entry_flags(w) })
                &&& tables_wf(m, p, root, map_levels(levels, mem, pool, root, v))
                &&& leaf_table(m, root, v) matches Ok(t1) && word(m, t1, table_index(v, 12)) == w
            }
        }),
{
    lemma_index_bounds(v);
    lemma_leaf_present(start, flags);
    let i4 = table_index(v, 39);
    let i3 = table_index(v, 30);
    let i2 = table_index(v, 21);
    let i1 = table_index(v, 12);
    let (m1, p1, r1) = child_step(mem, pool, root, i4, false);
    lemma_child_step(mem, pool, root, levels, root, i4, false);
    let l1 = levels_after(levels, mem, pool, root, i4);
    if let Ok(t3) = r1 {
        let (m2, p2, r2) = child_step(m1, p1, t3, i3, true);
        lemma_child_step(m1, p1, root, l1, t3, i3, true);
        let l2 = levels_after(l1, m1, p1, t3, i3);
        if let Ok(t2) = r2 {
            let (m3, p3, r3) = child_step(m2, p2, t2, i2, true);
            lemma_child_step(m2, p2, root, l2, t2, i2, true);
            let l3 = levels_after(l2, m2, p2, t2, i2);
            if let Ok(t1) = r3 {
                if !entry_present(word(m3, t1, i1)) {
                    let w = start | (flags | 1);
                    assert(l3[root] == 4);
                    assert(l3[t3] == 3);
                    assert(l3[t2] == 2);
                    assert(l3[t1] == 1);
                    assert(m3[root] == m2[root]);
                    assert(m2[root] == m1[root]);
                    assert(m3[t3] == m2[t3]);
                    assert(leaf_table(m3, root, v) == Ok::<u64, MemoryError>(t1));
                    lemma_leaf_write_query(m3, p3, root, l3, v, w);
                    lemma_write_leaf(m3, p3, root, l3, t1, i1, w);
                }
            }
        }
    }
}

/// With a page-aligned frame and flags below bit 12, the frame a lookup
/// finds after a successful mapping is the frame that was mapped.
pub proof fn lemma_map_then_translate(mem: Map<u64, Seq<u64>>, pool: Seq<u64>, root: u64, levels: Map<u64, int>, v: u64, start: u64, flags: u64)
    requires
        tables_wf(mem, pool, root, levels),
        start & 0xFFF == 0,
        flags & !0xFFFu64 == 0,
    ensures
        map_walk(mem, pool, root, v, start, flags).2 is Ok ==>
            translate_walk(map_walk(mem, pool, root, v, start, flags).0, root, v) == Some(PhysFrame { start: PhysAddr(start), order: 0 }),
{
    lemma_map_then_query(mem, pool, root, levels, v, start, flags);
    assert((start & 0xFFF == 0 && flags & !0xFFFu64 == 0) ==> (start | (flags | 1)) & 0xFFFF_FFFF_FFFF_F000u64 == start) by (bit_vector);
}

/// Unmapping undoes mapping: after a successful mapping of `v`, unmapping
/// `v` succeeds with the mapped entry's frame, and afterwards a lookup of
/// `v` finds nothing.
pub proof fn lemma_map_then_unmap(mem: Map<u64, Seq<u64>>, pool: Seq<u64>, root: u64, levels: Map<u64, int>, v: u64, start: u64, flags: u64)
    requires
        tables_wf(mem, pool, root, levels),
    ensures
        ({
            let (m, p, r) = map_walk(mem, pool, root, v, start, flags);
            let (m2, r2) = unmap_walk(m, root, v);
            r is Ok ==> {
                &&& r2 == Ok::<PhysFrame, MemoryError>(entry_frame(start | (flags | 1)))
                &&& !query_walk(m2, root, v).present
                &&& translate_walk(m2, root, v) is None
            }
        }),
{
    lemma_map_then_query(mem, pool, root, levels, v, start, flags);
    let (m, p, r) = map_walk(mem, pool, root, v, start, flags);
    if r is Ok {
        lemma_leaf_write_query(m, p, root, map_levels(levels, mem, pool, root, v), v, 0);
        assert(!entry_present(0u64)) by (bit_vector);
    }
}

/// After a successful unmapping of `v`, a lookup of `v` finds nothing.
pub proof fn lemma_unmap_then_query(mem: Map<u64, Seq<u64>>, pool: Seq<u64>, root: u64, levels: Map<u64, int>, v: u64)
    requires
        tables_wf(mem, pool, root, levels),
    ensures
        unmap_walk(mem, root, v).1 is Ok ==> !query_walk(unmap_walk(mem, root, v).0, root, v).present,
{
    lemma_leaf_write_query(mem, pool, root, levels, v, 0);
    assert(!entry_present(0u64)) by (bit_vector);
}

/// Mapping `v`, whether it succeeds or not, changes no lookup of an
/// address on another page.
pub proof fn lemma_map_keeps_other_pages(mem: Map<u64, Seq<u64>>, pool: Seq<u64>, root: u64, levels: Map<u64, int>, v: u64, start: u64, flags: u64, u: u64)
    requires
        tables_wf(mem, pool, root, levels),
        indexed_bits(u) != indexed_bits(v),
    ensures
        query_walk(map_walk(mem, pool, root, v, start, flags).0, root, u) == query_walk(mem, root, u),
{
    lemma_index_bounds(v);
    let i4 = table_index(v, 39);
    let i3 = table_index(v, 30);
    let i2 = table_index(v, 21);
    let i1 = table_index(v, 12);
    let (m1, p1, r1) = child_step(mem, pool, root, i4, false);
    lemma_child_step(mem, pool, root, levels, root, i4, false);
    lemma_step_keeps_queries(mem, pool, root, levels, root, i4, false, u);
    let l1 = levels_after(levels, mem, pool, root, i4);
    if let Ok(t3) = r1 {
        let (m2, p2, r2) = child_step(m1, p1, t3, i3, true);
        lemma_child_step(m1, p1, root, l1, t3, i3, true);
        lemma_step_keeps_queries(m1, p1, root, l1, t3, i3, true, u);
        let l2 = levels_after(l1, m1, p1, t3, i3);
        if let Ok(t2) = r2 {
            let (m3, p3, r3) = child_step(m2, p2, t2, i2, true);
            lemma_child_step(m2, p2, root, l2, t2, i2, true);
            lemma_step_keeps_queries(m2, p2, root, l2, t2, i2, true, u);
            let l3 = levels_after(l2, m2, p2, t2, i2);
            if let Ok(t1) = r3 {
                if !entry_present(word(m3, t1, i1)) {
                    assert(m3[root] == m2[root]);
                    assert(m2[root] == m1[root]);
                    assert(m3[t3] == m2[t3]);
                    assert(leaf_table(m3, root, v) == Ok::<u64, MemoryError>(t1));
                    lemma_leaf_write_others(m3, p3, root, l3, v, start | (flags | 1), u);
                }
            }
        }
    }
}

/// Unmapping `v` changes no lookup of an address on another page.
pub proof fn lemma_unmap_keeps_other_pages(mem: Map<u64, Seq<u64>>, pool: Seq<u64>, root: u64, levels: Map<u64, int>, v: u64, u: u64)
    requires
        tables_wf(mem, pool, root, levels),
        indexed_bits(u) != indexed_bits(v),
    ensures
        query_walk(unmap_walk(mem, root, v).0, root, u) == query_walk(mem, root, u),
{
    if leaf_table(mem, root, v) is Ok {
        lemma_leaf_write_others(mem, pool, root, levels, v, 0, u);
    }
}

/// Changing the flags of `v` changes no lookup of an address on another
/// page.
pub proof fn lemma_update_keeps_other_pages(mem: Map<u64, Seq<u64>>, pool: Seq<u64>, root: u64, levels: Map<u64, int>, v: u64, flags: u64, u: u64)
    requires
        tables_wf(mem, pool, root, levels),
        indexed_bits(u) != indexed_bits(v),
    ensures
        query_walk(update_walk(mem, root, v, flags).0, root, u) == query_walk(mem, root, u),
{
    if let Ok(t1) = leaf_table(mem, root, v) {
        let e1 = word(mem, t1, table_index(v, 12));
        lemma_leaf_write_others(mem, pool, root, levels, v, entry_target(e1) | (flags | 1), u);
    }
}

/// Changing the flags of a mapping, with flags below bit 12, keeps the
/// frame it translates to.
pub proof fn lemma_update_keeps_frame(mem: Map<u64, Seq<u64>>, pool: Seq<u64>, root: u64, levels: Map<u64, int>, v: u64, flags: u64)
    requires
        tables_wf(mem, pool, root, levels),
        flags & !0xFFFu64 == 0,
    ensures
        update_walk(mem, root, v, flags).1 is Ok ==> {
            &&& translate_walk(update_walk(mem, root, v, flags).0, root, v) == translate_walk(mem, root, v)
            &&& translate_walk(mem, root, v) is Some
        },
{
    if let Ok(t1) = leaf_table(mem, root, v) {
        let e1 = word(mem, t1, table_index(v, 12));
        let w = entry_target(e1) | (flags | 1);
        lemma_leaf_write_query(mem, pool, root, levels, v, w);
        assert(flags & !0xFFFu64 == 0 ==> (((e1 & 0xFFFF_FFFF_FFFF_F000u64) | (flags | 1)) & 0xFFFF_FFFF_FFFF_F000u64
            == e1 & 0xFFFF_FFFF_FFFF_F000u64 && ((e1 & 0xFFFF_FFFF_FFFF_F000u64) | (flags | 1)) & 1 != 0)) by (bit_vector);
    }
}

/// Writing a word of a PT-level table keeps the hierarchy walkable.
pub proof fn lemma_write_leaf(mem: Map<u64, Seq<u64>>, pool: Seq<u64>, root: u64, levels: Map<u64, int>, t1: u64, i: usize, w: u64)
    requires
        tables_wf(mem, pool, root, levels),
        mem.contains_key(t1),
        levels[t1] == 1,
        i < 512,
    ensures
        tables_wf(with_word(mem, t1, i, w), pool, root, levels),
{
    let m = with_word(mem, t1, i, w);
    assert(m.dom() == mem.dom());
    assert forall|f: u64| #[trigger] m.contains_key(f) implies m[f].len() == 512 && 1 <= levels[f] <= 4 by {
    }
    assert forall|f: u64, j: int| m.contains_key(f) && 0 <= j < 512 && links(levels[f], #[trigger] m[f][j]) implies {
        &&& m.contains_key(entry_target(m[f][j]))
        &&& levels[entry_target(m[f][j])] == levels[f] - 1
    } by {
        assert(f != t1);
        assert(m[f][j] == mem[f][j]);
    }
    assert(links_unique(m, levels)) by {
        reveal(links_unique);
        assert forall|f1: u64, j1: int, f2: u64, j2: int|
            m.contains_key(f1) && m.contains_key(f2) && 0 <= j1 < 512 && 0 <= j2 < 512
                && links(levels[f1], #[trigger] m[f1][j1]) && links(levels[f2], #[trigger] m[f2][j2])
                && entry_target(m[f1][j1]) == entry_target(m[f2][j2]) implies f1 == f2 && j1 == j2 by {
            assert(f1 != t1 && f2 != t1);
            assert(m[f1][j1] == mem[f1][j1] && m[f2][j2] == mem[f2][j2]);
        }
    }
}

/// A page table in a frame: its 512 words.
pub struct TableFrame {
    pub frame: u64,
    pub words: Vec<u64>,
}

impl Keyed for TableFrame {
    open spec fn key_of(&self) -> u64 {
        self.frame
    }

    fn key(&self) -> (k: u64) {
        self.frame
    }
}

/// The words of a cleared table.
fn zero_words() -> (v: Vec<u64>)
    ensures
        v@ == zero_table(),
{
    let mut v: Vec<u64> = Vec::new();
    while v.len() < PAGE_TABLE_ENTRIES
        invariant
            v@.len() <= 512,
            forall|j: int| 0 <= j < v@.len() ==> #[trigger] v@[j] == 0,
        decreases 512 - v@.len(),
    {
        v.push(0);
    }
    assert(v@ =~= zero_table());
    v
}

/// The mapper of one address space: the PML4 frame, the tables by frame
/// address, and the frames left for new tables (taken from the end).
pub struct PageTableMapper {
    pml4: u64,
    tables: KeyedMap<TableFrame>,
    free_frames: Vec<u64>,
    levels: Ghost<Map<u64, int>>,
}

impl PageTableMapper {
    /// Address of the PML4 frame.
    pub closed spec fn root(&self) -> u64 {
        self.pml4
    }

    /// The tables: the words of each table frame, by frame address.
    pub closed spec fn mem(&self) -> Map<u64, Seq<u64>> {
        Map::new(|f: u64| self.tables@.contains_key(f), |f: u64| self.tables@[f].words@)
    }

    /// The frames left for new tables.
    pub closed spec fn pool(&self) -> Seq<u64> {
        self.free_frames@
    }

    /// The tables form a walkable hierarchy.
    pub closed spec fn inv(&self) -> bool {
        &&& self.tables.wf()
        &&& tables_wf(self.mem(), self.pool(), self.pml4, self.levels@)
    }

    /// The level of each table: 4 for the PML4 down to 1 for a PT.
    pub closed spec fn levels(&self) -> Map<u64, int> {
        self.levels@
    }

    /// A consistent mapper's tables form a walkable hierarchy at its
    /// levels, so the laws of this module apply to it.
    pub proof fn lemma_consistent(&self)
        requires
            self.inv(),
        ensures
            tables_wf(self.mem(), self.pool(), self.root(), self.levels()),
    {
    }

    /// A mapper with an empty PML4 in `pml4_phys`, drawing new tables from
    /// `table_frames` (distinct, page-aligned, other than the PML4 frame).
    pub fn new(pml4_phys: PhysFrame, table_frames: Vec<PhysFrame>) -> (m: Self)
        requires
            forall|k: int| 0 <= k < table_frames@.len() ==> (#[trigger] table_frames@[k]).start.0 & 0xFFF == 0
                && table_frames@[k].start.0 != pml4_phys.start.0,
            forall|a: int, b: int| 0 <= a < b < table_frames@.len() ==> (#[trigger] table_frames@[a]).start.0 != (#[trigger] table_frames@[b]).start.0,
        ensures
            m.inv(),
            m.root() == pml4_phys.start.0,
            m.mem() == Map::<u64, Seq<u64>>::empty().insert(pml4_phys.start.0, zero_table()),
            m.pool() == table_frames@.map_values(|f: PhysFrame| f.start.0),
    {
        let root = pml4_phys.start.as_u64();
        let mut tables: KeyedMap<TableFrame> = KeyedMap::new();
        tables.insert(TableFrame { frame: root, words: zero_words() });
        let mut free_frames: Vec<u64> = Vec::new();
        let mut k: usize = 0;
        while k < table_frames.len()
            invariant
                k <= table_frames@.len(),
                free_frames@ == table_frames@.subrange(0, k as int).map_values(|f: PhysFrame| f.start.0),
            decreases table_frames@.len() - k,
        {
            free_frames.push(table_frames[k].start.as_u64());
            k += 1;
            assert(free_frames@ =~= table_frames@.subrange(0, k as int).map_values(|f: PhysFrame| f.start.0));
        }
        assert(table_frames@.subrange(0, table_frames@.len() as int) =~= table_frames@);
        let m = PageTableMapper { pml4: root, tables, free_frames, levels: Ghost(Map::empty().insert(root, 4int)) };
        proof {
            let mem = m.mem();
            assert(mem =~= Map::<u64, Seq<u64>>::empty().insert(root, zero_table()));
            assert(m.levels@.dom() =~= mem.dom());
            assert forall|f: u64, i: int| mem.contains_key(f) && 0 <= i < 512 && links(m.levels@[f], #[trigger] mem[f][i]) implies {
                &&& mem.contains_key(entry_target(mem[f][i]))
                &&& m.levels@[entry_target(mem[f][i])] == m.levels@[f] - 1
            } by {
                assert(mem[f][i] == 0u64);
                assert(!entry_present(0u64)) by (bit_vector);
            }
            assert(links_unique(mem, m.levels@)) by {
                reveal(links_unique);
                assert(!entry_present(0u64)) by (bit_vector);
                assert forall|f1: u64, j1: int| mem.contains_key(f1) && 0 <= j1 < 512 implies !links(m.levels@[f1], #[trigger] mem[f1][j1]) by {
                    assert(mem[f1][j1] == 0u64);
                }
            }
            let pool = m.pool();
            assert forall|a: int, b: int| 0 <= a < b < pool.len() implies pool[a] != pool[b] by {
                assert(pool[a] == table_frames@[a].start.0);
                assert(pool[b] == table_frames@[b].start.0);
            }
            assert forall|k: int| 0 <= k < pool.len() implies !mem.contains_key(#[trigger] pool[k]) && pool[k] & 0xFFF == 0 by {
                assert(pool[k] == table_frames@[k].start.0);
            }
        }
        m
    }

    /// Word `i` of the table in frame `f`.
    fn read(&self, f: u64, i: usize) -> (w: u64)
        requires
            self.tables.wf(),
            self.mem().contains_key(f),
            i < self.mem()[f].len(),
        ensures
            w == self.mem()[f][i as int],
    {
        match self.tables.get(f) {
            Some(t) => t.words[i],
            None => 0,
        }
    }

    /// Replace word `i` of the table in frame `f` by `w`.
    fn write(&mut self, f: u64, i: usize, w: u64)
        requires
            old(self).tables.wf(),
            old(self).mem().contains_key(f),
            i < old(self).mem()[f].len(),
        ensures
            final(self).tables.wf(),
            final(self).mem() == with_word(old(self).mem(), f, i, w),
            final(self).pml4 == old(self).pml4,
            final(self).free_frames@ == old(self).free_frames@,
            final(self).levels@ == old(self).levels@,
    {
        let r = self.tables.remove(f);
        if let Some(t) = r {
            let mut words = t.words;
            words.set(i, w);
            self.tables.insert(TableFrame { frame: f, words });
        }
        proof {
            assert(self.mem() =~= with_word(old(self).mem(), f, i, w));
        }
    }

    /// Put a cleared table in frame `p`.
    fn add_table(&mut self, p: u64)
        requires
            old(self).tables.wf(),
            !old(self).mem().contains_key(p),
        ensures
            final(self).tables.wf(),
            final(self).mem() == old(self).mem().insert(p, zero_table()),
            final(self).pml4 == old(self).pml4,
            final(self).free_frames@ == old(self).free_frames@,
            final(self).levels@ == old(self).levels@,
    {
        self.tables.insert(TableFrame { frame: p, words: zero_words() });
        proof {
            assert(self.mem() =~= old(self).mem().insert(p, zero_table()));
        }
    }

    /// One step down from entry `i` of table `f`, making the next table
    /// from the supply where the entry is not present.
    fn child(&mut self, f: u64, i: usize, check_huge: bool) -> (r: Result<u64, MemoryError>)
        requires
            old(self).inv(),
            old(self).mem().contains_key(f),
            old(self).levels@[f] >= 2,
            old(self).levels@[f] == 2 ==> check_huge,
            i < 512,
        ensures
            final(self).inv(),
            final(self).pml4 == old(self).pml4,
            (final(self).mem(), final(self).pool(), r) == child_step(old(self).mem(), old(self).pool(), f, i, check_huge),
            final(self).levels@ == levels_after(old(self).levels@, old(self).mem(), old(self).pool(), f, i),
            r matches Ok(c) ==> final(self).mem().contains_key(c) && final(self).levels@[c] == old(self).levels@[f] - 1,
    {
        proof {
            lemma_child_step(self.mem(), self.pool(), self.pml4, self.levels@, f, i, check_huge);
        }
        let ghost lv = self.levels@;
        let e = PageTableEntry(self.read(f, i));
        if !e.is_present() {
            match self.free_frames.pop() {
                None => {
                    return Err(MemoryError::FrameAllocationFailed);
                },
                Some(p) => {
                    self.add_table(p);
                    let table_flags = PageTableFlags::PRESENT() | PageTableFlags::WRITABLE();
                    assert(1u64 | 2u64 == 3u64) by (bit_vector);
                    let new_entry = PageTableEntry::new(PhysFrame::new(PhysAddr::new(p), 0), table_flags);
                    self.write(f, i, new_entry.as_u64());
                    self.levels = Ghost(lv.insert(p, lv[f] - 1));
                    if check_huge && new_entry.is_huge() {
                        return Err(MemoryError::AlreadyMapped);
                    }
                    return Ok(new_entry.frame().start.as_u64());
                },
            }
        }
        if check_huge && e.is_huge() {
            return Err(MemoryError::AlreadyMapped);
        }
        Ok(e.frame().start.as_u64())
    }

    /// The page table holding the leaf entry of `virt`.
    fn leaf(&self, virt: VirtAddr) -> (r: Result<u64, MemoryError>)
        requires
            self.inv(),
        ensures
            r == leaf_table(self.mem(), self.pml4, virt.0),
            r matches Ok(t) ==> self.mem().contains_key(t) && self.levels@[t] == 1,
    {
        let (pml4_idx, pdpt_idx, pd_idx, _pt_idx) = page_table_indices(virt);
        let pml4_entry = PageTableEntry(self.read(self.pml4, pml4_idx));
        if !pml4_entry.is_present() {
            return Err(MemoryError::NotMapped);
        }
        let pdpt = pml4_entry.frame().start.as_u64();
        let pdpt_entry = PageTableEntry(self.read(pdpt, pdpt_idx));
        if !pdpt_entry.is_present() {
            return Err(MemoryError::NotMapped);
        }
        let pd = pdpt_entry.frame().start.as_u64();
        let pd_entry = PageTableEntry(self.read(pd, pd_idx));
        if !pd_entry.is_present() {
            return Err(MemoryError::NotMapped);
        }
        if pd_entry.is_huge() {
            return Err(MemoryError::AlreadyMapped);
        }
        Ok(pd_entry.frame().start.as_u64())
    }
}


/// Changing the mappings of an address space.
pub trait Mapper {
    /// The mapper's tables are consistent.
    spec fn consistent(&self) -> bool;

    /// Map the page of `virt` to `frame` with `flags`.
    fn map(&mut self, virt: VirtAddr, frame: PhysFrame, flags: PageTableFlags) -> (r: Result<(), MemoryError>)
        requires
            old(self).consistent(),
            frame.order == 0,
        ensures
            final(self).consistent(),
    ;

    /// Remove the mapping of the page of `virt`, giving its frame.
    fn unmap(&mut self, virt: VirtAddr) -> (r: Result<PhysFrame, MemoryError>)
        requires
            old(self).consistent(),
        ensures
            final(self).consistent(),
    ;

    /// Give the mapping of the page of `virt` new flags.
    fn update_flags(&mut self, virt: VirtAddr, flags: PageTableFlags) -> (r: Result<(), MemoryError>)
        requires
            old(self).consistent(),
        ensures
            final(self).consistent(),
    ;

    /// Look up the page of `virt`.
    fn query(&self, virt: VirtAddr) -> (r: Result<PageQuery, MemoryError>)
        requires
            self.consistent(),
    ;

    /// The frame the page of `virt` is mapped to.
    fn translate(&self, virt: VirtAddr) -> (r: Option<PhysFrame>)
        requires
            self.consistent(),
    ;
}

impl Mapper for PageTableMapper {
    open spec fn consistent(&self) -> bool {
        self.inv()
    }

    /// Makes the missing tables on the way from the supply (those made
    /// stay when a later step fails), then writes the leaf entry, which
    /// must not be present: the frame with `flags` and the present bit.
    /// Out of supply: allocation failed; a huge entry on the way or a
    /// present leaf: already mapped.
    fn map(&mut self, virt: VirtAddr, frame: PhysFrame, flags: PageTableFlags) -> (r: Result<(), MemoryError>)
        ensures
            final(self).root() == old(self).root(),
            (final(self).mem(), final(self).pool(), r) == map_walk(old(self).mem(), old(self).pool(), old(self).root(), virt.0, frame.start.0, flags.0),
    {
        proof {
            lemma_index_bounds(virt.0);
        }
        let (pml4_idx, pdpt_idx, pd_idx, pt_idx) = page_table_indices(virt);
        let root = self.pml4;
        let pdpt = match self.child(root, pml4_idx, false) {
            Ok(t) => t,
            Err(e) => {
                return Err(e);
            },
        };
        let pd = match self.child(pdpt, pdpt_idx, true) {
            Ok(t) => t,
            Err(e) => {
                return Err(e);
            },
        };
        let pt = match self.child(pd, pd_idx, true) {
            Ok(t) => t,
            Err(e) => {
                return Err(e);
            },
        };
        let entry = PageTableEntry(self.read(pt, pt_idx));
        if entry.is_present() {
            return Err(MemoryError::AlreadyMapped);
        }
        let leaf = PageTableEntry::new(frame, flags | PageTableFlags::PRESENT());
        proof {
            lemma_write_leaf(self.mem(), self.pool(), self.pml4, self.levels@, pt, pt_idx, leaf.0);
        }
        self.write(pt, pt_idx, leaf.as_u64());
        Ok(())
    }

    /// Clears the leaf entry and gives the frame it named; not mapped
    /// where the leaf or an entry on the way is not present, already
    /// mapped where the PD entry is a huge page.
    fn unmap(&mut self, virt: VirtAddr) -> (r: Result<PhysFrame, MemoryError>)
        ensures
            final(self).root() == old(self).root(),
            final(self).pool() == old(self).pool(),
            (final(self).mem(), r) == unmap_walk(old(self).mem(), old(self).root(), virt.0),
    {
        proof {
            lemma_index_bounds(virt.0);
        }
        let (_pml4_idx, _pdpt_idx, _pd_idx, pt_idx) = page_table_indices(virt);
        let pt = match self.leaf(virt) {
            Ok(t) => t,
            Err(e) => {
                return Err(e);
            },
        };
        let entry = PageTableEntry(self.read(pt, pt_idx));
        if !entry.is_present() {
            return Err(MemoryError::NotMapped);
        }
        let frame = entry.frame();
        proof {
            lemma_write_leaf(self.mem(), self.pool(), self.pml4, self.levels@, pt, pt_idx, 0);
        }
        self.write(pt, pt_idx, PageTableEntry::empty().as_u64());
        Ok(frame)
    }

    /// Rewrites the leaf entry with its frame, `flags` and the present
    /// bit; errors as for `unmap`.
    fn update_flags(&mut self, virt: VirtAddr, flags: PageTableFlags) -> (r: Result<(), MemoryError>)
        ensures
            final(self).root() == old(self).root(),
            final(self).pool() == old(self).pool(),
            (final(self).mem(), r) == update_walk(old(self).mem(), old(self).root(), virt.0, flags.0),
    {
        proof {
            lemma_index_bounds(virt.0);
        }
        let (_pml4_idx, _pdpt_idx, _pd_idx, pt_idx) = page_table_indices(virt);
        let pt = match self.leaf(virt) {
            Ok(t) => t,
            Err(e) => {
                return Err(e);
            },
        };
        let entry = PageTableEntry(self.read(pt, pt_idx));
        if !entry.is_present() {
            return Err(MemoryError::NotMapped);
        }
        let frame = entry.frame();
        let updated = PageTableEntry::new(frame, flags | PageTableFlags::PRESENT());
        proof {
            lemma_write_leaf(self.mem(), self.pool(), self.pml4, self.levels@, pt, pt_idx, updated.0);
        }
        self.write(pt, pt_idx, updated.as_u64());
        Ok(())
    }

    /// Always answers: the leaf entry, a huge PD entry, or not present.
    fn query(&self, virt: VirtAddr) -> (r: Result<PageQuery, MemoryError>)
        ensures
            r == Ok::<PageQuery, MemoryError>(query_walk(self.mem(), self.root(), virt.0)),
    {
        proof {
            lemma_index_bounds(virt.0);
        }
        let (pml4_idx, pdpt_idx, pd_idx, pt_idx) = page_table_indices(virt);
        let not_present = PageQuery { present: false, frame: None, flags: PageTableFlags::empty() };
        let pml4_entry = PageTableEntry(self.read(self.pml4, pml4_idx));
        if !pml4_entry.is_present() {
            return Ok(not_present);
        }
        let pdpt_entry = PageTableEntry(self.read(pml4_entry.frame().start.as_u64(), pdpt_idx));
        if !pdpt_entry.is_present() {
            return Ok(not_present);
        }
        let pd_entry = PageTableEntry(self.read(pdpt_entry.frame().start.as_u64(), pd_idx));
        if !pd_entry.is_present() {
            return Ok(not_present);
        }
        if pd_entry.is_huge() {
            return Ok(PageQuery { present: true, frame: Some(pd_entry.frame()), flags: pd_entry.flags() });
        }
        let pt_entry = PageTableEntry(self.read(pd_entry.frame().start.as_u64(), pt_idx));
        Ok(PageQuery {
            present: pt_entry.is_present(),
            frame: if pt_entry.is_present() { Some(pt_entry.frame()) } else { None },
            flags: pt_entry.flags(),
        })
    }

    /// The frame of a present mapping, nothing otherwise.
    fn translate(&self, virt: VirtAddr) -> (r: Option<PhysFrame>)
        ensures
            r == translate_walk(self.mem(), self.root(), virt.0),
    {
        match self.query(virt) {
            Ok(q) => {
                if q.present {
                    q.frame
                } else {
                    None
                }
            },
            Err(_) => None,
        }
    }
}

} // verus!
