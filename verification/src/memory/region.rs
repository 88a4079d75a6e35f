//! Regions of a virtual address space and the list that holds them.

use crate::arch::{PhysAddr, VirtAddr};
use crate::memory::error::MemoryError;
use crate::memory::page_table::PageTableFlags;
use vstd::prelude::*;

verus! {

/// Start of the higher-half kernel space.
pub const KERNEL_BASE: u64 = 0xFFFF_8000_0000_0000;
/// Start of user space.
pub const USER_BASE: u64 = 0x0000_0000_0040_0000;
/// Start of the kernel's `vmalloc` area.
pub const VMALLOC_START: u64 = 0xFFFF_9000_0000_0000;
/// Start of the user `mmap` area.
pub const MMAP_START: u64 = 0x0000_0000_0140_0000;
/// Most regions one list holds.
pub const MAX_REGIONS: usize = 32;

/// What a region holds.
#[derive(Debug, Clone, Copy, PartialEq, Eq, Structural)]
pub enum RegionType {
    Code,
    Data,
    Rodata,
    Bss,
    Stack,
    Heap,
    Vmalloc,
    Mmap,
    Device,
    Shared,
    Anonymous,
}

/// A range of virtual memory with its flags and kind.
#[derive(Debug, Clone, Copy, PartialEq, Eq, Structural)]
pub struct MemoryRegion {
    pub start: VirtAddr,
    pub size: u64,
    pub flags: PageTableFlags,
    pub region_type: RegionType,
}

/// The region ends inside the address space.
pub open spec fn region_fits(r: MemoryRegion) -> bool {
    r.start.0 + r.size <= u64::MAX
}

/// The two regions share an address.
pub open spec fn regions_overlap(a: MemoryRegion, b: MemoryRegion) -> bool {
    a.start.0 < b.start.0 + b.size && a.start.0 + a.size > b.start.0
}

/// The address `x` lies in the region: `start <= x < start + size`.
pub open spec fn region_holds(r: MemoryRegion, x: int) -> bool {
    r.start.0 <= x < r.start.0 + r.size
}

/// Two non-empty regions overlap exactly when some address lies in both.
/// (An empty region holds no address, yet counts as overlapping a region
/// that holds its start and begins strictly before it.)
pub proof fn lemma_overlap_iff_shared_address(a: MemoryRegion, b: MemoryRegion)
    requires
        a.size > 0,
        b.size > 0,
    ensures
        regions_overlap(a, b) <==> exists|x: int| #[trigger] region_holds(a, x) && region_holds(b, x),
{
    if regions_overlap(a, b) {
        let x: int = if a.start.0 >= b.start.0 { a.start.0 as int } else { b.start.0 as int };
        assert(region_holds(a, x) && region_holds(b, x));
    }
}

/// No two regions at different positions share an address.
pub open spec fn no_overlaps(s: Seq<MemoryRegion>) -> bool {
    forall|a: int, b: int| #![trigger s[a], s[b]] 0 <= a < s.len() && 0 <= b < s.len() && a != b ==> !regions_overlap(s[a], s[b])
}

/// Exchanging two elements keeps a list free of overlaps.
proof fn lemma_swap_no_overlaps(s: Seq<MemoryRegion>, i: int, j: int)
    requires
        0 <= i < s.len(),
        0 <= j < s.len(),
        no_overlaps(s),
    ensures
        no_overlaps(swap_at(s, i, j)),
{
    let t = swap_at(s, i, j);
    assert forall|a: int, b: int| #![trigger t[a], t[b]] 0 <= a < t.len() && 0 <= b < t.len() && a != b implies !regions_overlap(t[a], t[b]) by {
        let a2 = if a == i { j } else if a == j { i } else { a };
        let b2 = if b == i { j } else if b == j { i } else { b };
        assert(t[a] == s[a2] && t[b] == s[b2]);
        assert(s[a2] == s[a2] && s[b2] == s[b2]);
    }
}

/// Appending a region that overlaps none of a list free of overlaps keeps
/// it free of overlaps.
proof fn lemma_push_no_overlaps(s: Seq<MemoryRegion>, r: MemoryRegion)
    requires
        no_overlaps(s),
        forall|k: int| 0 <= k < s.len() ==> !regions_overlap(#[trigger] s[k], r),
    ensures
        no_overlaps(s.push(r)),
{
    let t = s.push(r);
    assert forall|a: int, b: int| #![trigger t[a], t[b]] 0 <= a < t.len() && 0 <= b < t.len() && a != b implies !regions_overlap(t[a], t[b]) by {
        if a == s.len() {
            assert(!regions_overlap(s[b], r));
        } else if b == s.len() {
            assert(!regions_overlap(s[a], r));
        } else {
            assert(t[a] == s[a] && t[b] == s[b]);
        }
    }
}

/// Taking one element out keeps a list free of overlaps.
proof fn lemma_remove_no_overlaps(o: Seq<MemoryRegion>, i: int)
    requires
        0 <= i < o.len(),
        no_overlaps(o),
    ensures
        no_overlaps(o.remove(i)),
{
    let f = o.remove(i);
    assert forall|a: int, b: int| #![trigger f[a], f[b]] 0 <= a < f.len() && 0 <= b < f.len() && a != b implies !regions_overlap(f[a], f[b]) by {
        let a2 = if a < i { a } else { a + 1 };
        let b2 = if b < i { b } else { b + 1 };
        assert(f[a] == o[a2] && f[b] == o[b2]);
    }
}

impl MemoryRegion {
    /// A region.
    pub fn new(start: VirtAddr, size: u64, flags: PageTableFlags, region_type: RegionType) -> (r: Self)
        ensures
            r == (MemoryRegion { start, size, flags, region_type }),
    {
        MemoryRegion { start, size, flags, region_type }
    }

    /// The first address.
    pub fn start(&self) -> (a: VirtAddr)
        ensures
            a == self.start,
    {
        self.start
    }

    /// The first address after the region.
    pub fn end(&self) -> (a: VirtAddr)
        requires
            region_fits(*self),
        ensures
            a.0 == self.start.0 + self.size,
    {
        VirtAddr::new(self.start.as_u64() + self.size)
    }

    /// Size in bytes.
    pub fn size(&self) -> (s: u64)
        ensures
            s == self.size,
    {
        self.size
    }

    /// `addr` lies in the region.
    pub fn contains(&self, addr: VirtAddr) -> (b: bool)
        requires
            region_fits(*self),
        ensures
            b == (self.start.0 <= addr.0 && addr.0 < self.start.0 + self.size),
    {
        addr.as_u64() >= self.start.as_u64() && addr.as_u64() < self.end().as_u64()
    }

    /// The two regions share an address.
    pub fn overlaps(&self, other: &MemoryRegion) -> (b: bool)
        requires
            region_fits(*self),
            region_fits(*other),
        ensures
            b == regions_overlap(*self, *other),
            self.size > 0 && other.size > 0 ==> (b <==> exists|x: int| #[trigger] region_holds(*self, x) && region_holds(*other, x)),
    {
        proof {
            if self.size > 0 && other.size > 0 {
                lemma_overlap_iff_shared_address(*self, *other);
            }
        }
        self.start.as_u64() < other.end().as_u64() && self.end().as_u64() > other.start.as_u64()
    }
}

/// `s` with the elements at `i` and `j` exchanged.
pub open spec fn swap_at(s: Seq<MemoryRegion>, i: int, j: int) -> Seq<MemoryRegion> {
    s.update(i, s[j]).update(j, s[i])
}

/// One inner pass of the list's ordering step: for `j` from `j` to the
/// end, the elements at `i` and `j` are exchanged when `key` (the start of
/// the element at `i` when the pass began) is above the start at `j`.
pub open spec fn order_inner(s: Seq<MemoryRegion>, i: int, key: u64, j: int) -> Seq<MemoryRegion>
    decreases s.len() - j,
{
    if j >= s.len() || j < 0 || i < 0 || i >= s.len() {
        s
    } else {
        let next = if key > s[j].start.0 { swap_at(s, i, j) } else { s };
        proof {
            assert(next.len() == s.len());
        }
        order_inner(next, i, key, j + 1)
    }
}

/// The outer passes of the ordering step, from position `i` on.
pub open spec fn order_outer(s: Seq<MemoryRegion>, i: int) -> Seq<MemoryRegion>
    decreases s.len() - i,
{
    if i + 1 >= s.len() || i < 0 {
        s
    } else {
        proof {
            lemma_order_inner_len(s, i, s[i].start.0, i + 1);
        }
        order_outer(order_inner(s, i, s[i].start.0, i + 1), i + 1)
    }
}

/// The list's ordering step applied to `s`. On a list with strictly
/// increasing starts and one region appended, it places that region after
/// every region starting at or below it (`insert_by_start`, proved by
/// `lemma_order_inserts`).
pub open spec fn order_regions(s: Seq<MemoryRegion>) -> Seq<MemoryRegion> {
    if s.len() <= 1 {
        s
    } else {
        order_outer(s, 0)
    }
}

/// An inner pass keeps the length.
pub proof fn lemma_order_inner_len(s: Seq<MemoryRegion>, i: int, key: u64, j: int)
    requires
        0 <= i < s.len(),
    ensures
        order_inner(s, i, key, j).len() == s.len(),
    decreases s.len() - j,
{
    if 0 <= j < s.len() {
        let next = if key > s[j].start.0 { swap_at(s, i, j) } else { s };
        lemma_order_inner_len(next, i, key, j + 1);
    }
}

/// The regions are in ascending order of start.
pub open spec fn sorted_by_start(s: Seq<MemoryRegion>) -> bool {
    forall|a: int, b: int| #![trigger s[a], s[b]] 0 <= a <= b < s.len() ==> s[a].start.0 <= s[b].start.0
}

/// Halfway through the ordering step at pass `i`: the first `i` elements
/// are in order and no larger than any later one, and the elements from `i`
/// up to the last are in order.
spec fn ordering_progress(t: Seq<MemoryRegion>, i: int) -> bool {
    &&& 0 <= i < t.len()
    &&& forall|a: int, b: int| #![trigger t[a], t[b]] 0 <= a <= b < i ==> t[a].start.0 <= t[b].start.0
    &&& forall|a: int, b: int| #![trigger t[a], t[b]] i <= a <= b < t.len() - 1 ==> t[a].start.0 <= t[b].start.0
    &&& forall|a: int, b: int| #![trigger t[a], t[b]] 0 <= a < i <= b < t.len() ==> t[a].start.0 <= t[b].start.0
}

/// An inner pass exchanges nothing before the last element while the key
/// is no larger than the starts it meets.
proof fn lemma_inner_no_swap(t: Seq<MemoryRegion>, i: int, key: u64, j: int)
    requires
        0 <= i < j <= t.len() - 1,
        forall|k: int| j <= k < t.len() - 1 ==> key <= #[trigger] t[k].start.0,
    ensures
        order_inner(t, i, key, j) == order_inner(t, i, key, t.len() - 1),
    decreases t.len() - 1 - j,
{
    if j < t.len() - 1 {
        lemma_inner_no_swap(t, i, key, j + 1);
    }
}

/// The remaining passes of the ordering step finish a list in progress in
/// order.
proof fn lemma_outer_sorted(t: Seq<MemoryRegion>, i: int)
    requires
        t.len() >= 2,
        ordering_progress(t, i),
    ensures
        sorted_by_start(order_outer(t, i)),
    decreases t.len() - i,
{
    let n = t.len() as int;
    if i + 1 >= n {
        assert forall|a: int, b: int| #![trigger t[a], t[b]] 0 <= a <= b < n implies t[a].start.0 <= t[b].start.0 by {
            if b < n - 1 {
            } else if a < n - 1 {
            }
        }
    } else {
        let key = t[i].start.0;
        assert forall|k: int| i + 1 <= k < n - 1 implies key <= #[trigger] t[k].start.0 by {
            assert(t[i].start.0 <= t[k].start.0);
        }
        lemma_inner_no_swap(t, i, key, i + 1);
        let next = if key > t[n - 1].start.0 { swap_at(t, i, n - 1) } else { t };
        assert(next.len() == n);
        assert(order_inner(next, i, key, n) == next);
        assert(order_inner(t, i, key, n - 1) == next);
        let t2 = order_inner(t, i, key, i + 1);
        assert(t2 == next);
        assert(ordering_progress(t2, i + 1)) by {
            assert forall|a: int, b: int| #![trigger t2[a], t2[b]] 0 <= a <= b < i + 1 implies t2[a].start.0 <= t2[b].start.0 by {
                if b < i {
                    assert(t2[a] == t[a] && t2[b] == t[b]);
                } else if a < i {
                    assert(t2[a] == t[a]);
                    assert(t[a].start.0 <= t[i].start.0);
                    assert(t[a].start.0 <= t[n - 1].start.0);
                }
            }
            assert forall|a: int, b: int| #![trigger t2[a], t2[b]] i + 1 <= a <= b < n - 1 implies t2[a].start.0 <= t2[b].start.0 by {
                assert(t2[a] == t[a] && t2[b] == t[b]);
            }
            assert forall|a: int, b: int| #![trigger t2[a], t2[b]] 0 <= a < i + 1 <= b < n implies t2[a].start.0 <= t2[b].start.0 by {
                if a < i {
                    assert(t2[a] == t[a]);
                    if b < n - 1 {
                        assert(t2[b] == t[b]);
                    } else {
                        assert(t[a].start.0 <= t[i].start.0);
                        assert(t[a].start.0 <= t[n - 1].start.0);
                    }
                } else {
                    if b < n - 1 {
                        assert(t2[b] == t[b]);
                        assert(t[i].start.0 <= t[b].start.0);
                    }
                }
            }
        }
        lemma_outer_sorted(t2, i + 1);
    }
}

/// Appending a region to a list in order of start and applying the ordering
/// step gives a list in order of start.
pub proof fn lemma_order_keeps_sorted(s: Seq<MemoryRegion>, x: MemoryRegion)
    requires
        sorted_by_start(s),
    ensures
        sorted_by_start(order_regions(s.push(x))),
{
    let t = s.push(x);
    if t.len() >= 2 {
        assert(ordering_progress(t, 0)) by {
            assert forall|a: int, b: int| #![trigger t[a], t[b]] 0 <= a <= b < t.len() - 1 implies t[a].start.0 <= t[b].start.0 by {
                assert(t[a] == s[a] && t[b] == s[b]);
            }
        }
        lemma_outer_sorted(t, 0);
    }
}

/// Taking one element out of a list in order of start leaves it in order.
proof fn lemma_remove_keeps_sorted(o: Seq<MemoryRegion>, i: int)
    requires
        0 <= i < o.len(),
    ensures
        sorted_by_start(o) ==> sorted_by_start(o.remove(i)),
{
    let f = o.remove(i);
    if sorted_by_start(o) {
        assert forall|a: int, b: int| #![trigger f[a], f[b]] 0 <= a <= b < f.len() implies f[a].start.0 <= f[b].start.0 by {
            let a2 = if a < i { a } else { a + 1 };
            let b2 = if b < i { b } else { b + 1 };
            assert(f[a] == o[a2] && f[b] == o[b2]);
            assert(o[a2].start.0 <= o[b2].start.0);
        }
    }
}

/// Starts strictly increase along the list.
pub open spec fn strictly_sorted_by_start(s: Seq<MemoryRegion>) -> bool {
    forall|a: int, b: int| #![trigger s[a], s[b]] 0 <= a < b < s.len() ==> s[a].start.0 < s[b].start.0
}

/// The number of regions of `s` starting at or below `v`.
pub open spec fn count_starting_by(s: Seq<MemoryRegion>, v: u64) -> int
    decreases s.len(),
{
    if s.len() == 0 {
        0
    } else {
        count_starting_by(s.drop_last(), v) + (if s.last().start.0 <= v { 1int } else { 0int })
    }
}

/// `s` with `x` placed after every region starting at or below its start.
pub open spec fn insert_by_start(s: Seq<MemoryRegion>, x: MemoryRegion) -> Seq<MemoryRegion> {
    let p = count_starting_by(s, x.start.0);
    s.subrange(0, p) + seq![x] + s.subrange(p, s.len() as int)
}

/// In a list in order of start, the regions starting at or below `v` come
/// first.
proof fn lemma_count_starting_by(s: Seq<MemoryRegion>, v: u64)
    requires
        sorted_by_start(s),
    ensures
        0 <= count_starting_by(s, v) <= s.len(),
        forall|k: int| 0 <= k < count_starting_by(s, v) ==> #[trigger] s[k].start.0 <= v,
        forall|k: int| count_starting_by(s, v) <= k < s.len() ==> #[trigger] s[k].start.0 > v,
    decreases s.len(),
{
    if s.len() > 0 {
        let d = s.drop_last();
        assert(sorted_by_start(d)) by {
            assert forall|a: int, b: int| #![trigger d[a], d[b]] 0 <= a <= b < d.len() implies d[a].start.0 <= d[b].start.0 by {
                assert(d[a] == s[a] && d[b] == s[b]);
            }
        }
        lemma_count_starting_by(d, v);
        let c = count_starting_by(d, v);
        let n = s.len() - 1;
        if s.last().start.0 <= v {
            assert forall|k: int| 0 <= k < c + 1 implies #[trigger] s[k].start.0 <= v by {
                if k < c {
                    assert(d[k] == s[k]);
                } else if k < n {
                    assert(s[k].start.0 <= s[n].start.0);
                }
            }
            if c < n {
                assert(d[c] == s[c]);
                assert(s[c].start.0 <= s[n].start.0);
            }
        } else {
            assert forall|k: int| c <= k < s.len() implies #[trigger] s[k].start.0 > v by {
                if k < n {
                    assert(d[k] == s[k]);
                }
            }
            assert forall|k: int| 0 <= k < c implies #[trigger] s[k].start.0 <= v by {
                assert(d[k] == s[k]);
            }
        }
    }
}

/// The list during the ordering step of `s` with `x` appended, before
/// pass `i`: the regions from `s` up to the place of `x`, then `x`, then
/// those passed over shifted one on, the rest in place, and last the one
/// carried along.
spec fn insert_progress(s: Seq<MemoryRegion>, x: MemoryRegion, p: int, i: int) -> Seq<MemoryRegion> {
    if i <= p {
        s.push(x)
    } else {
        Seq::new(s.len() + 1, |k: int|
            if k < p { s[k] } else if k == p { x } else if k < i { s[k - 1] } else if k < s.len() { s[k] } else { s[i - 1] })
    }
}

/// One pass of the ordering step on a list in progress.
proof fn lemma_insert_pass(s: Seq<MemoryRegion>, x: MemoryRegion, p: int, i: int)
    requires
        strictly_sorted_by_start(s),
        0 <= p <= s.len(),
        forall|k: int| 0 <= k < p ==> #[trigger] s[k].start.0 <= x.start.0,
        forall|k: int| p <= k < s.len() ==> #[trigger] s[k].start.0 > x.start.0,
        0 <= i < s.len(),
    ensures
        ({
            let t = insert_progress(s, x, p, i);
            order_inner(t, i, t[i].start.0, i + 1) == insert_progress(s, x, p, i + 1)
        }),
{
    let t = insert_progress(s, x, p, i);
    let n = s.len() as int;
    assert(t.len() == n + 1);
    let key = t[i].start.0;
    assert(t[i] == s[i]) by {
        if i > p {
            assert(t[i] == s[i]);
        }
    }
    assert forall|k: int| i + 1 <= k < n implies key <= #[trigger] t[k].start.0 by {
        if i > p {
            assert(t[k] == s[k]);
        } else {
            assert(t[k] == s[k]);
        }
        assert(s[i].start.0 < s[k].start.0);
    }
    lemma_inner_no_swap(t, i, key, i + 1);
    let next = if key > t[n].start.0 { swap_at(t, i, n) } else { t };
    assert(order_inner(next, i, key, n + 1) == next);
    assert(order_inner(t, i, key, n) == next);
    let u = insert_progress(s, x, p, i + 1);
    if i < p {
        assert(t[n] == x);
        assert(key <= x.start.0);
        assert(next =~= u);
    } else if i == p {
        assert(t[n] == x);
        assert(key > x.start.0);
        assert(next =~= u);
    } else {
        assert(t[n] == s[i - 1]);
        assert(s[i - 1].start.0 < s[i].start.0);
        assert(next =~= u);
    }
}

/// The remaining passes finish placing `x`.
proof fn lemma_insert_outer(s: Seq<MemoryRegion>, x: MemoryRegion, p: int, i: int)
    requires
        strictly_sorted_by_start(s),
        0 <= p <= s.len(),
        forall|k: int| 0 <= k < p ==> #[trigger] s[k].start.0 <= x.start.0,
        forall|k: int| p <= k < s.len() ==> #[trigger] s[k].start.0 > x.start.0,
        0 <= i <= s.len(),
    ensures
        order_outer(insert_progress(s, x, p, i), i) == insert_progress(s, x, p, s.len() as int),
    decreases s.len() - i,
{
    let t = insert_progress(s, x, p, i);
    if i < s.len() {
        lemma_insert_pass(s, x, p, i);
        assert(t.len() == s.len() + 1);
        lemma_insert_outer(s, x, p, i + 1);
    }
}

/// The ordering step applied to a list with strictly increasing starts and
/// one region appended places that region after every region starting at
/// or below it, keeping the others in order.
pub proof fn lemma_order_inserts(s: Seq<MemoryRegion>, x: MemoryRegion)
    requires
        strictly_sorted_by_start(s),
    ensures
        order_regions(s.push(x)) == insert_by_start(s, x),
{
    assert(sorted_by_start(s)) by {
        assert forall|a: int, b: int| #![trigger s[a], s[b]] 0 <= a <= b < s.len() implies s[a].start.0 <= s[b].start.0 by {
            if a < b {
                assert(s[a].start.0 < s[b].start.0);
            }
        }
    }
    lemma_count_starting_by(s, x.start.0);
    let p = count_starting_by(s, x.start.0);
    let n = s.len() as int;
    let target = insert_by_start(s, x);
    if n == 0 {
        assert(order_regions(s.push(x)) == s.push(x));
        assert(target =~= s.push(x));
    } else {
        assert(insert_progress(s, x, p, 0) == s.push(x));
        lemma_insert_outer(s, x, p, 0);
        let fin = insert_progress(s, x, p, n);
        assert(fin =~= target) by {
            if p == n {
                assert(fin == s.push(x));
            }
        }
    }
}

/// An inner pass of the ordering step keeps a list free of overlaps.
proof fn lemma_inner_no_overlaps(s: Seq<MemoryRegion>, i: int, key: u64, j: int)
    requires
        no_overlaps(s),
    ensures
        no_overlaps(order_inner(s, i, key, j)),
    decreases s.len() - j,
{
    if !(j >= s.len() || j < 0 || i < 0 || i >= s.len()) {
        let next = if key > s[j].start.0 { swap_at(s, i, j) } else { s };
        if key > s[j].start.0 {
            lemma_swap_no_overlaps(s, i, j);
        }
        lemma_inner_no_overlaps(next, i, key, j + 1);
    }
}

/// The outer passes of the ordering step keep a list free of overlaps.
proof fn lemma_outer_no_overlaps(s: Seq<MemoryRegion>, i: int)
    requires
        no_overlaps(s),
    ensures
        no_overlaps(order_outer(s, i)),
    decreases s.len() - i,
{
    if !(i + 1 >= s.len() || i < 0) {
        lemma_order_inner_len(s, i, s[i].start.0, i + 1);
        lemma_inner_no_overlaps(s, i, s[i].start.0, i + 1);
        lemma_outer_no_overlaps(order_inner(s, i, s[i].start.0, i + 1), i + 1);
    }
}

/// One change a list of regions goes through: none, an `add` that
/// succeeds (a region that fits and overlaps none, into a list of fewer
/// than 32), or a `remove` that finds a region.
pub open spec fn region_list_step(before: Seq<MemoryRegion>, after: Seq<MemoryRegion>) -> bool {
    ||| after == before
    ||| exists|r: MemoryRegion| #![trigger order_regions(before.push(r))]
        region_fits(r) && before.len() < MAX_REGIONS
        && (forall|k: int| 0 <= k < before.len() ==> !regions_overlap(#[trigger] before[k], r))
        && after == order_regions(before.push(r))
    ||| exists|i: int| 0 <= i < before.len() && after == #[trigger] before.remove(i)
}

/// Every list of regions reached from an empty one by `add` and `remove`
/// calls is in order of start and free of overlaps.
pub proof fn lemma_region_lists_reachable(ls: Seq<Seq<MemoryRegion>>)
    requires
        ls.len() >= 1,
        ls[0].len() == 0,
        forall|i: int| 0 <= i < ls.len() - 1 ==> region_list_step(#[trigger] ls[i], ls[i + 1]),
    ensures
        forall|i: int| 0 <= i < ls.len() ==> sorted_by_start(#[trigger] ls[i]) && no_overlaps(ls[i]),
{
    assert forall|i: int| 0 <= i < ls.len() implies sorted_by_start(#[trigger] ls[i]) && no_overlaps(ls[i]) by {
        lemma_region_list_prefix(ls, i);
    }
}

proof fn lemma_region_list_prefix(ls: Seq<Seq<MemoryRegion>>, n: int)
    requires
        0 <= n < ls.len(),
        ls[0].len() == 0,
        forall|i: int| 0 <= i < ls.len() - 1 ==> region_list_step(#[trigger] ls[i], ls[i + 1]),
    ensures
        sorted_by_start(ls[n]),
        no_overlaps(ls[n]),
    decreases n,
{
    if n > 0 {
        let k = n - 1;
        lemma_region_list_prefix(ls, k);
        let b = ls[k];
        assert(region_list_step(b, ls[k + 1]));
        if ls[n] == b {
        } else if exists|r: MemoryRegion| #![trigger order_regions(b.push(r))]
            region_fits(r) && b.len() < MAX_REGIONS
            && (forall|j: int| 0 <= j < b.len() ==> !regions_overlap(#[trigger] b[j], r))
            && ls[n] == order_regions(b.push(r)) {
            let r = choose|r: MemoryRegion| #![trigger order_regions(b.push(r))]
                region_fits(r) && b.len() < MAX_REGIONS
                && (forall|j: int| 0 <= j < b.len() ==> !regions_overlap(#[trigger] b[j], r))
                && ls[n] == order_regions(b.push(r));
            lemma_order_keeps_sorted(b, r);
            lemma_push_no_overlaps(b, r);
            lemma_outer_no_overlaps(b.push(r), 0);
        } else {
            let i = choose|i: int| 0 <= i < b.len() && ls[n] == #[trigger] b.remove(i);
            lemma_remove_keeps_sorted(b, i);
            lemma_remove_no_overlaps(b, i);
        }
    } else {
        assert(sorted_by_start(ls[0]));
    }
}

/// The sum of the sizes of `s`.
pub open spec fn total_size_of(s: Seq<MemoryRegion>) -> int
    decreases s.len(),
{
    if s.len() == 0 {
        0
    } else {
        total_size_of(s.drop_last()) + s.last().size
    }
}

/// The regions of an address space: at most 32, none overlapping, each
/// ending inside the address space.
#[derive(Debug, Clone)]
pub struct RegionList {
    regions: Vec<MemoryRegion>,
}

impl RegionList {
    /// The regions in list order.
    pub closed spec fn view(&self) -> Seq<MemoryRegion> {
        self.regions@
    }

    /// At most 32 regions, each ending inside the address space.
    pub open spec fn wf(&self) -> bool {
        &&& self@.len() <= MAX_REGIONS
        &&& forall|i: int| 0 <= i < self@.len() ==> region_fits(#[trigger] self@[i])
    }

    /// An empty list.
    pub fn new() -> (l: Self)
        ensures
            l.wf(),
            l@.len() == 0,
            sorted_by_start(l@),
            no_overlaps(l@),
    {
        RegionList { regions: Vec::new() }
    }

    /// Add a region: refused when 32 are held or it overlaps one; else
    /// appended and the list reordered by start.
    pub fn add(&mut self, region: MemoryRegion) -> (r: Result<(), MemoryError>)
        requires
            old(self).wf(),
            region_fits(region),
        ensures
            final(self).wf(),
            old(self)@.len() >= MAX_REGIONS ==> r == Err::<(), MemoryError>(MemoryError::AddressSpaceFull) && final(self)@ == old(self)@,
            old(self)@.len() < MAX_REGIONS && (exists|i: int| 0 <= i < old(self)@.len() && regions_overlap(#[trigger] old(self)@[i], region))
                ==> r == Err::<(), MemoryError>(MemoryError::RegionOverlap) && final(self)@ == old(self)@,
            old(self)@.len() < MAX_REGIONS && !(exists|i: int| 0 <= i < old(self)@.len() && regions_overlap(#[trigger] old(self)@[i], region))
                ==> r == Ok::<(), MemoryError>(()) && final(self)@ == order_regions(old(self)@.push(region)),
            sorted_by_start(old(self)@) ==> sorted_by_start(final(self)@),
            no_overlaps(old(self)@) ==> no_overlaps(final(self)@),
            strictly_sorted_by_start(old(self)@) && r is Ok ==> final(self)@ == insert_by_start(old(self)@, region),
    {
        if self.regions.len() >= MAX_REGIONS {
            return Err(MemoryError::AddressSpaceFull);
        }
        let mut i: usize = 0;
        while i < self.regions.len()
            invariant
                self.wf(),
                self@ == old(self)@,
                self@.len() < MAX_REGIONS,
                region_fits(region),
                i <= self@.len(),
                forall|k: int| 0 <= k < i ==> !regions_overlap(#[trigger] self@[k], region),
            decreases self@.len() - i,
        {
            if self.regions[i].overlaps(&region) {
                assert(regions_overlap(self@[i as int], region));
                return Err(MemoryError::RegionOverlap);
            }
            i += 1;
        }
        let ghost before = self@;
        self.regions.push(region);
        self.sort();
        proof {
            if sorted_by_start(old(self)@) {
                lemma_order_keeps_sorted(before, region);
            }
            if no_overlaps(before) {
                lemma_push_no_overlaps(before, region);
            }
            if strictly_sorted_by_start(before) {
                lemma_order_inserts(before, region);
            }
        }
        Ok(())
    }

    /// The list's ordering step (see `order_regions`).
    fn sort(&mut self)
        requires
            old(self)@.len() <= MAX_REGIONS,
            forall|i: int| 0 <= i < old(self)@.len() ==> region_fits(#[trigger] old(self)@[i]),
        ensures
            final(self)@ == order_regions(old(self)@),
            final(self).wf(),
            no_overlaps(old(self)@) ==> no_overlaps(final(self)@),
    {
        let n = self.regions.len();
        if n <= 1 {
            return;
        }
        let ghost s0 = self@;
        let mut i: usize = 0;
        while i < n - 1
            invariant
                n == self@.len(),
                n >= 2,
                i <= n - 1,
                order_outer(self@, i as int) == order_outer(s0, 0),
                self@.to_multiset() == s0.to_multiset(),
                no_overlaps(s0) ==> no_overlaps(self@),
            decreases n - i,
        {
            let start_i = self.regions[i].start.as_u64();
            let ghost at_i = self@;
            let mut j: usize = i + 1;
            while j < n
                invariant
                    n == self@.len(),
                    i < j <= n,
                    i < n - 1,
                    at_i.len() == n,
                    start_i == at_i[i as int].start.0,
                    order_inner(at_i, i as int, start_i, (i + 1) as int) == order_inner(self@, i as int, start_i, j as int),
                    self@.to_multiset() == s0.to_multiset(),
                    no_overlaps(s0) ==> no_overlaps(self@),
                decreases n - j,
            {
                let start_j = self.regions[j].start.as_u64();
                if start_i > start_j {
                    let ghost before = self@;
                    let a = self.regions[i];
                    let b = self.regions[j];
                    self.regions.set(i, b);
                    self.regions.set(j, a);
                    proof {
                        assert(self@ =~= swap_at(before, i as int, j as int));
                        lemma_swap_multiset(before, i as int, j as int);
                        if no_overlaps(s0) {
                            lemma_swap_no_overlaps(before, i as int, j as int);
                        }
                    }
                }
                j += 1;
            }
            proof {
                assert(order_outer(at_i, i as int) == order_outer(order_inner(at_i, i as int, at_i[i as int].start.0, (i + 1) as int), (i + 1) as int));
            }
            i += 1;
        }
        proof {
            lemma_multiset_fits(self@, s0);
        }
    }

    /// Remove the first region starting at `addr`, giving it back.
    pub fn remove(&mut self, addr: VirtAddr) -> (r: Option<MemoryRegion>)
        requires
            old(self).wf(),
        ensures
            final(self).wf(),
            match r {
                Some(reg) => exists|i: int| 0 <= i < old(self)@.len() && #[trigger] old(self)@[i] == reg && reg.start == addr
                    && (forall|k: int| 0 <= k < i ==> old(self)@[k].start != addr)
                    && final(self)@ == old(self)@.remove(i),
                None => (forall|k: int| 0 <= k < old(self)@.len() ==> #[trigger] old(self)@[k].start != addr)
                    && final(self)@ == old(self)@,
            },
            sorted_by_start(old(self)@) ==> sorted_by_start(final(self)@),
            no_overlaps(old(self)@) ==> no_overlaps(final(self)@),
    {
        let mut i: usize = 0;
        while i < self.regions.len()
            invariant
                self@ == old(self)@,
                old(self).wf(),
                i <= self@.len(),
                forall|k: int| 0 <= k < i ==> #[trigger] self@[k].start != addr,
            decreases self@.len() - i,
        {
            if self.regions[i].start == addr {
                let reg = self.regions.remove(i);
                assert(old(self)@[i as int] == reg);
                assert forall|k: int| 0 <= k < self@.len() implies region_fits(#[trigger] self@[k]) by {
                    if k < i {
                        assert(self@[k] == old(self)@[k]);
                    } else {
                        assert(self@[k] == old(self)@[k + 1]);
                    }
                }
                proof {
                    lemma_remove_keeps_sorted(old(self)@, i as int);
                    if no_overlaps(old(self)@) {
                        lemma_remove_no_overlaps(old(self)@, i as int);
                    }
                }
                return Some(reg);
            }
            i += 1;
        }
        None
    }

    /// The first region containing `addr`.
    pub fn find(&self, addr: VirtAddr) -> (r: Option<&MemoryRegion>)
        requires
            self.wf(),
        ensures
            match r {
                Some(reg) => exists|i: int| 0 <= i < self@.len() && #[trigger] self@[i] == *reg
                    && reg.start.0 <= addr.0 && addr.0 < reg.start.0 + reg.size
                    && (forall|k: int| 0 <= k < i ==> !(self@[k].start.0 <= addr.0 && addr.0 < self@[k].start.0 + self@[k].size)),
                None => forall|k: int| 0 <= k < self@.len() ==> !(#[trigger] self@[k].start.0 <= addr.0 && addr.0 < self@[k].start.0 + self@[k].size),
            },
    {
        let mut i: usize = 0;
        while i < self.regions.len()
            invariant
                self.wf(),
                i <= self@.len(),
                forall|k: int| 0 <= k < i ==> !(#[trigger] self@[k].start.0 <= addr.0 && addr.0 < self@[k].start.0 + self@[k].size),
            decreases self@.len() - i,
        {
            if self.regions[i].contains(addr) {
                return Some(&self.regions[i]);
            }
            i += 1;
        }
        None
    }

    /// The first region containing `addr`, to change in place.
    pub fn find_mut(&mut self, addr: VirtAddr) -> (r: Option<&mut MemoryRegion>)
        requires
            old(self).wf(),
        ensures
            r is None ==> final(self)@ == old(self)@ && forall|k: int| 0 <= k < old(self)@.len()
                ==> !(#[trigger] old(self)@[k].start.0 <= addr.0 && addr.0 < old(self)@[k].start.0 + old(self)@[k].size),
            r matches Some(reg) ==> exists|i: int| 0 <= i < old(self)@.len() && #[trigger] old(self)@[i] == *reg
                && reg.start.0 <= addr.0 && addr.0 < reg.start.0 + reg.size
                && (forall|k: int| 0 <= k < i ==> !(old(self)@[k].start.0 <= addr.0 && addr.0 < old(self)@[k].start.0 + old(self)@[k].size))
                && final(self)@ == old(self)@.update(i, *final(reg)),
    {
        let mut i: usize = 0;
        let n = self.regions.len();
        let mut found = false;
        while i < n && !found
            invariant
                n == self@.len(),
                i <= n,
                self.wf(),
                self@ == old(self)@,
                found ==> i < n && self@[i as int].start.0 <= addr.0 && addr.0 < self@[i as int].start.0 + self@[i as int].size,
                forall|k: int| 0 <= k < i ==> !(#[trigger] self@[k].start.0 <= addr.0 && addr.0 < self@[k].start.0 + self@[k].size),
            decreases n - i + (if found { 0int } else { 1int }),
        {
            if self.regions[i].contains(addr) {
                found = true;
            } else {
                i += 1;
            }
        }
        if found {
            let reg = &mut self.regions[i];
            assert(old(self)@[i as int] == *reg);
            Some(reg)
        } else {
            None
        }
    }

    /// The region at position `i`, to change in place.
    pub fn get_mut(&mut self, i: usize) -> (r: &mut MemoryRegion)
        requires
            i < old(self)@.len(),
        ensures
            *r == old(self)@[i as int],
            final(self)@ == old(self)@.update(i as int, *final(r)),
    {
        &mut self.regions[i]
    }

    /// The regions in list order.
    pub fn iter(&self) -> (s: &[MemoryRegion])
        ensures
            s@ == self@,
    {
        self.regions.as_slice()
    }

    /// Number of regions.
    pub fn count(&self) -> (n: usize)
        ensures
            n == self@.len(),
    {
        self.regions.len()
    }

    /// The sum of the region sizes.
    pub fn total_size(&self) -> (t: u64)
        requires
            total_size_of(self@) <= u64::MAX,
        ensures
            t == total_size_of(self@),
    {
        let mut t: u64 = 0;
        let mut i: usize = 0;
        while i < self.regions.len()
            invariant
                i <= self@.len(),
                t == total_size_of(self@.subrange(0, i as int)),
                total_size_of(self@) <= u64::MAX,
            decreases self@.len() - i,
        {
            proof {
                lemma_total_size_prefix(self@, (i + 1) as int);
                assert(self@.subrange(0, (i + 1) as int).drop_last() =~= self@.subrange(0, i as int));
            }
            t = t + self.regions[i].size;
            i += 1;
        }
        assert(self@.subrange(0, self@.len() as int) =~= self@);
        t
    }
}

/// Exchanging two elements keeps the multiset.
proof fn lemma_swap_multiset(s: Seq<MemoryRegion>, i: int, j: int)
    requires
        0 <= i < s.len(),
        0 <= j < s.len(),
    ensures
        swap_at(s, i, j).to_multiset() == s.to_multiset(),
{
    let t = s.update(i, s[j]);
    vstd::seq_lib::to_multiset_update(s, i, s[j]);
    vstd::seq_lib::to_multiset_update(t, j, s[i]);
    s.to_multiset_ensures();
    if i != j {
        assert(t[j] == s[j]);
    }
    assert(swap_at(s, i, j).to_multiset() =~= s.to_multiset());
}

/// A sequence with the multiset of one whose regions fit has regions that
/// fit.
proof fn lemma_multiset_fits(s: Seq<MemoryRegion>, t: Seq<MemoryRegion>)
    requires
        s.to_multiset() == t.to_multiset(),
        forall|i: int| 0 <= i < t.len() ==> region_fits(#[trigger] t[i]),
    ensures
        forall|i: int| 0 <= i < s.len() ==> region_fits(#[trigger] s[i]),
{
    s.to_multiset_ensures();
    t.to_multiset_ensures();
    assert forall|i: int| 0 <= i < s.len() implies region_fits(#[trigger] s[i]) by {
        assert(s.to_multiset().count(s[i]) > 0);
        assert(t.contains(s[i]));
    }
}

/// The total of a prefix one longer adds that element's size, and no
/// prefix total exceeds the whole.
proof fn lemma_total_size_prefix(s: Seq<MemoryRegion>, n: int)
    requires
        0 < n <= s.len(),
    ensures
        total_size_of(s.subrange(0, n)) == total_size_of(s.subrange(0, n - 1)) + s[n - 1].size,
        total_size_of(s.subrange(0, n)) <= total_size_of(s),
    decreases s.len() - n,
{
    assert(s.subrange(0, n).drop_last() =~= s.subrange(0, n - 1));
    if n < s.len() {
        lemma_total_size_prefix(s, n + 1);
    } else {
        assert(s.subrange(0, n) =~= s);
    }
}

/// A mapping of virtual to physical memory.
#[derive(Debug, Clone, Copy)]
pub struct MemoryMapping {
    pub virt_start: VirtAddr,
    pub phys_start: PhysAddr,
    pub size: u64,
    pub flags: PageTableFlags,
}

impl MemoryMapping {
    /// A mapping.
    pub fn new(virt_start: VirtAddr, phys_start: PhysAddr, size: u64, flags: PageTableFlags) -> (m: Self)
        ensures
            m.virt_start == virt_start,
            m.phys_start == phys_start,
            m.size == size,
            m.flags == flags,
    {
        MemoryMapping { virt_start, phys_start, size, flags }
    }

    /// The first virtual address after the mapping.
    pub fn end_virt(&self) -> (a: VirtAddr)
        requires
            self.virt_start.0 + self.size <= u64::MAX,
        ensures
            a.0 == self.virt_start.0 + self.size,
    {
        VirtAddr::new(self.virt_start.as_u64() + self.size)
    }

    /// The first physical address after the mapping.
    pub fn end_phys(&self) -> (a: PhysAddr)
        requires
            self.phys_start.0 + self.size <= u64::MAX,
        ensures
            a.0 == self.phys_start.0 + self.size,
    {
        PhysAddr::new(self.phys_start.as_u64() + self.size)
    }
}

/// `addr` lies in the kernel half.
pub fn is_kernel_addr(addr: VirtAddr) -> (b: bool)
    ensures
        b == (addr.0 >= KERNEL_BASE),
{
    addr.as_u64() >= KERNEL_BASE
}

/// `addr` lies in the canonical lower half.
pub fn is_user_addr(addr: VirtAddr) -> (b: bool)
    ensures
        b == (addr.0 < 0x0000_8000_0000_0000u64),
{
    addr.as_u64() < 0x0000_8000_0000_0000
}

} // verus!
