//! Physical frame allocation with a buddy system.
//!
//! Blocks of `4 KiB << order` bytes, for orders 0 to `MAX_ORDER`, sit in
//! one free list per order. Allocation takes the newest block of the
//! smallest non-empty order at least the one asked for and splits it down;
//! freeing merges the block with free buddies.

use crate::arch::{PhysAddr, PAGE_SIZE};
use crate::memory::error::MemoryError;
use vstd::arithmetic::power2::{pow2, lemma2_to64, lemma_pow2_strictly_increases, lemma_pow2_unfold};
use vstd::bits::{lemma_u64_shl_is_mul, lemma_usize_shl_is_mul};
use vstd::prelude::*;

verus! {

/// The largest block order.
pub const MAX_ORDER: usize = 20;
/// The smallest block order.
pub const MIN_ORDER: usize = 0;
/// The order of a 4 KiB block.
pub const ORDER_4KB: usize = 0;
/// The order of a 2 MiB block.
pub const ORDER_2MB: usize = 9;
/// The order of a 1 GiB block.
pub const ORDER_1GB: usize = 18;

/// Bytes in a block of order `o`.
pub open spec fn block_bytes(o: nat) -> nat {
    4096 * pow2(o)
}

/// Shifting the page size left by `o` gives the block size, which lies
/// between a page and 4 GiB and doubles with each order.
pub proof fn lemma_block_bytes(o: u64)
    requires
        o <= 20,
    ensures
        (4096u64 << o) == block_bytes(o as nat),
        4096 <= block_bytes(o as nat) <= 0x1_0000_0000,
        block_bytes((o + 1) as nat) == 2 * block_bytes(o as nat),
        (1usize << (o as usize)) == pow2(o as nat),
        block_bytes(o as nat) == 4096 * pow2(o as nat),
{
    lemma2_to64();
    if o < 20 {
        lemma_pow2_strictly_increases(o as nat, 20);
    }
    lemma_pow2_unfold((o + 1) as nat);
    lemma_u64_shl_is_mul(4096, o);
    lemma_usize_shl_is_mul(1, o as usize);
}

/// Block sizes grow with the order.
pub proof fn lemma_block_bytes_monotonic(a: nat, b: nat)
    requires
        a <= b,
    ensures
        block_bytes(a) <= block_bytes(b),
    decreases b - a,
{
    if a < b {
        lemma_pow2_strictly_increases(a, b);
    }
}

/// A physical block: a start address and an order.
#[derive(Debug, Clone, Copy, PartialEq, Eq, Structural)]
pub struct PhysFrame {
    pub start: PhysAddr,
    pub order: usize,
}

/// `4 KiB << order` as the shift computes it.
pub open spec fn frame_bytes(order: usize) -> u64 {
    4096u64 << (order as u64)
}

impl PhysFrame {
    /// The block at `start` of order `order`.
    pub fn new(start: PhysAddr, order: usize) -> (f: Self)
        ensures
            f.start == start,
            f.order == order,
    {
        PhysFrame { start, order }
    }

    /// Size of the block in bytes.
    pub fn size(&self) -> (s: u64)
        requires
            self.order < 64,
        ensures
            s == frame_bytes(self.order),
            self.order <= 20 ==> s == block_bytes(self.order as nat),
    {
        proof {
            if self.order <= 20 {
                lemma_block_bytes(self.order as u64);
            }
        }
        PAGE_SIZE << (self.order as u64)
    }

    /// The block's first address.
    pub fn start_address(&self) -> (a: PhysAddr)
        ensures
            a == self.start,
    {
        self.start
    }

    /// The first address after the block.
    pub fn end_address(&self) -> (a: PhysAddr)
        requires
            self.order < 64,
            self.start.0 + frame_bytes(self.order) <= u64::MAX,
        ensures
            a.0 == self.start.0 + frame_bytes(self.order),
    {
        PhysAddr::new(self.start.as_u64() + self.size())
    }

    /// The page frame number of the block's start.
    pub fn pfn(&self) -> (n: u64)
        ensures
            n == self.start.0 / 4096,
    {
        self.start.as_u64() / PAGE_SIZE
    }

    /// `addr` lies inside the block.
    pub fn contains(&self, addr: PhysAddr) -> (b: bool)
        requires
            self.order < 64,
            self.start.0 + frame_bytes(self.order) <= u64::MAX,
        ensures
            b == (self.start.0 <= addr.0 && addr.0 < self.start.0 + frame_bytes(self.order)),
    {
        addr.as_u64() >= self.start.as_u64() && addr.as_u64() < self.end_address().as_u64()
    }
}

/// Frame usage counters.
#[derive(Debug, Clone, Copy)]
pub struct AllocatorStats {
    pub total_frames: usize,
    pub used_frames: usize,
    pub free_frames: usize,
    pub total_bytes: u64,
    pub used_bytes: u64,
    pub free_bytes: u64,
}

/// The free lists with `a` added to the list of order `o`.
pub open spec fn push_at(ls: Seq<Seq<u64>>, o: int, a: u64) -> Seq<Seq<u64>> {
    ls.update(o, ls[o].push(a))
}

/// The free lists with the newest block of order `o` taken out.
pub open spec fn pop_at(ls: Seq<Seq<u64>>, o: int) -> Seq<Seq<u64>> {
    ls.update(o, ls[o].drop_last())
}

/// `s` without its first occurrence of `a`.
pub open spec fn remove_first(s: Seq<u64>, a: u64) -> Seq<u64> {
    match s.index_of_first(a) {
        Some(i) => s.remove(i),
        None => s,
    }
}

/// The free lists with the first occurrence of `a` in the list of order
/// `o` taken out.
pub open spec fn remove_at(ls: Seq<Seq<u64>>, o: int, a: u64) -> Seq<Seq<u64>> {
    ls.update(o, remove_first(ls[o], a))
}

/// The smallest order from `o` up to `MAX_ORDER` with a free block, or
/// `MAX_ORDER + 1` if there is none.
pub open spec fn first_nonempty(ls: Seq<Seq<u64>>, o: int) -> int
    decreases 21 - o,
{
    if o > 20 || o < 0 {
        21
    } else if ls[o].len() > 0 {
        o
    } else {
        first_nonempty(ls, o + 1)
    }
}

/// The free lists after splitting the block at `addr` of order `hi` down
/// to order `lo`: the upper half of each split goes on its order's list,
/// from order `hi - 1` down to `lo`.
pub open spec fn split(ls: Seq<Seq<u64>>, addr: u64, hi: int, lo: int) -> Seq<Seq<u64>>
    decreases hi - lo,
{
    if hi <= lo {
        ls
    } else {
        split(push_at(ls, hi - 1, (addr + block_bytes((hi - 1) as nat)) as u64), addr, hi - 1, lo)
    }
}

/// The block at `b` of order `o` is on its free list and inside the
/// managed range `[base, limit)`.
pub open spec fn free_in(ls: Seq<Seq<u64>>, base: u64, limit: u64, b: u64, o: int) -> bool {
    base <= b && b < limit && ls[o].contains(b)
}

/// Merging a freed block at `addr` with its free buddies from order `cur`
/// up: while the buddy (`addr` with the order's size bit flipped) is free,
/// it leaves its list and the block starts at the lower of the two.
/// Gives the lists, the merged block's start and the order it reached.
pub open spec fn merge(ls: Seq<Seq<u64>>, base: u64, limit: u64, addr: u64, cur: int) -> (Seq<Seq<u64>>, u64, int)
    decreases 20 - cur,
{
    if cur >= 20 || cur < 0 {
        (ls, addr, cur)
    } else {
        let b = addr ^ ((4096u64 << (cur as u64)) as u64);
        if !free_in(ls, base, limit, b, cur) {
            (ls, addr, cur)
        } else {
            merge(remove_at(ls, cur, b), base, limit, if b < addr { b } else { addr }, cur + 1)
        }
    }
}

/// A block and its buddy of order `o` (the block's address with the
/// order's size bit flipped) sit side by side: the lower one ends where
/// the higher one starts.
pub proof fn lemma_buddy_pair(addr: u64, o: u64)
    requires
        o <= 20,
    ensures
        ({
            let bs = (4096u64 << o) as u64;
            let b = addr ^ bs;
            &&& b < addr ==> b + bs == addr
            &&& b > addr ==> b == addr + bs
            &&& b != addr
        }),
{
    assert({
        let bs = (4096u64 << o) as u64;
        let b = addr ^ bs;
        &&& b < addr ==> b + bs == addr
        &&& b > addr ==> b == addr + bs
        &&& b != addr
    }) by (bit_vector)
        requires
            o <= 20,
    ;
}

/// The largest order up to `o`, at least 1, whose block fits in
/// `remaining` bytes and to whose size `current` is aligned; 0 if none.
pub open spec fn carve_order(current: u64, remaining: u64, o: int) -> int
    decreases o,
{
    if o <= 0 {
        0
    } else if remaining >= block_bytes(o as nat) && current % (block_bytes(o as nat) as u64) == 0 {
        o
    } else {
        carve_order(current, remaining, o - 1)
    }
}

/// The order carved lies between 0 and `o`, and its block fits.
pub proof fn lemma_carve_order(current: u64, remaining: u64, o: int)
    requires
        0 <= o <= 20,
        remaining >= 4096,
    ensures
        0 <= carve_order(current, remaining, o) <= o,
        block_bytes(carve_order(current, remaining, o) as nat) <= remaining,
        block_bytes(carve_order(current, remaining, o) as nat) >= 4096,
    decreases o,
{
    lemma2_to64();
    assert(block_bytes(0) == 4096);
    if o > 0 {
        lemma_carve_order(current, remaining, o - 1);
        lemma_block_bytes(o as u64);
        if remaining >= block_bytes(o as nat) && current % (block_bytes(o as nat) as u64) == 0 {
            assert(carve_order(current, remaining, o) == o);
        } else {
            assert(carve_order(current, remaining, o) == carve_order(current, remaining, o - 1));
        }
    } else {
        assert(carve_order(current, remaining, o) == 0);
    }
}

/// The free lists after carving `[current, current + remaining)` into
/// blocks: each step takes the largest aligned block that fits, until
/// less than a page is left.
pub open spec fn carve(ls: Seq<Seq<u64>>, current: u64, remaining: u64) -> Seq<Seq<u64>>
    decreases remaining,
{
    if remaining < 4096 {
        ls
    } else {
        let o = carve_order(current, remaining, 20);
        let bs = block_bytes(o as nat);
        proof {
            lemma_carve_order(current, remaining, 20);
        }
        carve(push_at(ls, o, current), (current + bs) as u64, (remaining - bs) as u64)
    }
}

/// Frames held by the lists of orders below `n`.
pub open spec fn free_frames_upto(ls: Seq<Seq<u64>>, n: nat) -> nat
    decreases n,
{
    if n == 0 {
        0
    } else {
        free_frames_upto(ls, (n - 1) as nat) + ls[n - 1].len() * pow2((n - 1) as nat)
    }
}

/// Frames held by all free lists.
pub open spec fn free_frames(ls: Seq<Seq<u64>>) -> nat {
    free_frames_upto(ls, 21)
}

/// Lists with no blocks hold no frames.
pub proof fn lemma_no_free_frames(ls: Seq<Seq<u64>>, n: nat)
    requires
        n <= ls.len(),
        forall|o: int| 0 <= o < ls.len() ==> #[trigger] ls[o].len() == 0,
    ensures
        free_frames_upto(ls, n) == 0,
    decreases n,
{
    if n > 0 {
        lemma_no_free_frames(ls, (n - 1) as nat);
        assert(ls[n - 1].len() == 0);
    }
}

/// Listing one more block of order `o` adds `2^o` free frames.
pub proof fn lemma_push_free_frames(ls: Seq<Seq<u64>>, o: int, a: u64, n: nat)
    requires
        0 <= o < ls.len(),
        n <= ls.len(),
    ensures
        free_frames_upto(push_at(ls, o, a), n) == free_frames_upto(ls, n) + (if o < n { pow2(o as nat) } else { 0 }),
    decreases n,
{
    if n > 0 {
        lemma_push_free_frames(ls, o, a, (n - 1) as nat);
        let k = n - 1;
        if k == o {
            let p = pow2(o as nat);
            let l = ls[o].len();
            assert((l + 1) * p == l * p + p) by (nonlinear_arith);
        }
    }
}

/// Carving `remaining` bytes adds `remaining / 4096` free frames.
pub proof fn lemma_carve_free_frames(ls: Seq<Seq<u64>>, current: u64, remaining: u64)
    requires
        ls.len() == 21,
    ensures
        free_frames(carve(ls, current, remaining)) == free_frames(ls) + remaining / 4096,
    decreases remaining,
{
    if remaining >= 4096 {
        let o = carve_order(current, remaining, 20);
        lemma_carve_order(current, remaining, 20);
        let p = pow2(o as nat);
        let bs = block_bytes(o as nat);
        lemma_push_free_frames(ls, o, current, 21);
        lemma_carve_free_frames(push_at(ls, o, current), (current + bs) as u64, (remaining - bs) as u64);
        assert(((remaining - 4096 * p) as int) / 4096 == remaining / 4096 - p) by (nonlinear_arith)
            requires
                4096 * p <= remaining,
        ;
    }
}

/// Taking the newest block of order `o` off its list removes `2^o` free
/// frames.
pub proof fn lemma_pop_free_frames(ls: Seq<Seq<u64>>, o: int)
    requires
        ls.len() == 21,
        0 <= o <= 20,
        ls[o].len() > 0,
    ensures
        free_frames(pop_at(ls, o)) + pow2(o as nat) == free_frames(ls),
{
    let p = pop_at(ls, o);
    lemma_push_free_frames(p, o, ls[o].last(), 21);
    assert(p[o].push(ls[o].last()) =~= ls[o]);
    assert(push_at(p, o, ls[o].last()) =~= ls);
}

/// Splitting a block of order `hi` down to order `lo` lists the halves
/// split off: `2^hi - 2^lo` frames.
pub proof fn lemma_split_free_frames(ls: Seq<Seq<u64>>, addr: u64, hi: int, lo: int)
    requires
        ls.len() == 21,
        0 <= lo <= hi <= 21,
    ensures
        free_frames(split(ls, addr, hi, lo)) + pow2(lo as nat) == free_frames(ls) + pow2(hi as nat),
    decreases hi - lo,
{
    if hi > lo {
        let o = hi - 1;
        let ls2 = push_at(ls, o, (addr + block_bytes(o as nat)) as u64);
        lemma_push_free_frames(ls, o, (addr + block_bytes(o as nat)) as u64, 21);
        lemma_split_free_frames(ls2, addr, o, lo);
        vstd::arithmetic::power2::lemma_pow2_adds(o as nat, 1);
        vstd::arithmetic::power2::lemma2_to64();
    }
}

/// The first non-empty order from `o` is at least `o`.
pub proof fn lemma_first_nonempty_at_least(ls: Seq<Seq<u64>>, o: int)
    requires
        0 <= o <= 21,
    ensures
        first_nonempty(ls, o) >= o,
    decreases 21 - o,
{
    if o <= 20 && ls[o].len() == 0 {
        lemma_first_nonempty_at_least(ls, o + 1);
    }
}

/// An allocation of order `order` that finds a block takes exactly
/// `2^order` frames off the free lists.
pub proof fn lemma_allocate_takes_frames(ls: Seq<Seq<u64>>, order: int)
    requires
        ls.len() == 21,
        0 <= order <= 20,
        first_nonempty(ls, order) <= 20,
    ensures
        ({
            let o = first_nonempty(ls, order);
            free_frames(split(pop_at(ls, o), ls[o].last(), o, order)) + pow2(order as nat) == free_frames(ls)
        }),
{
    let o = first_nonempty(ls, order);
    lemma_first_nonempty_at_least(ls, order);
    lemma_first_nonempty_found(ls, order);
    lemma_pop_free_frames(ls, o);
    lemma_split_free_frames(pop_at(ls, o), ls[o].last(), o, order);
}

/// A first non-empty order within range names a non-empty list.
proof fn lemma_first_nonempty_found(ls: Seq<Seq<u64>>, o: int)
    requires
        0 <= o,
        first_nonempty(ls, o) <= 20,
    ensures
        ls[first_nonempty(ls, o)].len() > 0,
    decreases 21 - o,
{
    if o <= 20 && ls[o].len() == 0 {
        lemma_first_nonempty_found(ls, o + 1);
    }
}

/// The free frames count only the lengths of the lists.
proof fn lemma_free_frames_lengths(a: Seq<Seq<u64>>, b: Seq<Seq<u64>>, n: nat)
    requires
        n <= a.len(),
        n <= b.len(),
        forall|k: int| 0 <= k < n ==> #[trigger] a[k].len() == b[k].len(),
    ensures
        free_frames_upto(a, n) == free_frames_upto(b, n),
    decreases n,
{
    if n > 0 {
        lemma_free_frames_lengths(a, b, (n - 1) as nat);
    }
}

/// Taking a listed block of order `o` off its list removes `2^o` free
/// frames.
proof fn lemma_remove_free_frames(ls: Seq<Seq<u64>>, o: int, a: u64)
    requires
        ls.len() == 21,
        0 <= o <= 20,
        ls[o].contains(a),
    ensures
        free_frames(remove_at(ls, o, a)) + pow2(o as nat) == free_frames(ls),
{
    let r = remove_at(ls, o, a);
    ls[o].index_of_first_ensures(a);
    lemma_push_free_frames(r, o, a, 21);
    lemma_free_frames_lengths(push_at(r, o, a), ls, 21);
}

/// Merging from order `cur` takes off the free lists exactly the buddies
/// that join the block: the frames listed plus the merged block's equal
/// those listed before plus the block of order `cur`.
pub proof fn lemma_merge_free_frames(ls: Seq<Seq<u64>>, base: u64, limit: u64, addr: u64, cur: int)
    requires
        ls.len() == 21,
        0 <= cur <= 20,
    ensures
        ({
            let m = merge(ls, base, limit, addr, cur);
            &&& m.0.len() == 21
            &&& cur <= m.2 <= 20
            &&& free_frames(m.0) + pow2(m.2 as nat) == free_frames(ls) + pow2(cur as nat)
        }),
    decreases 20 - cur,
{
    if cur < 20 {
        let b = addr ^ ((4096u64 << (cur as u64)) as u64);
        if free_in(ls, base, limit, b, cur) {
            let r = remove_at(ls, cur, b);
            lemma_remove_free_frames(ls, cur, b);
            lemma_merge_free_frames(r, base, limit, if b < addr { b } else { addr }, cur + 1);
            lemma_pow2_unfold((cur + 1) as nat);
        }
    }
}

/// Freeing a block puts exactly `2^order` frames back on the free lists,
/// whatever buddies it merges with.
pub proof fn lemma_free_returns_frames(ls: Seq<Seq<u64>>, base: u64, limit: u64, addr: u64, order: int)
    requires
        ls.len() == 21,
        0 <= order <= 20,
    ensures
        ({
            let m = merge(ls, base, limit, addr, order);
            free_frames(push_at(m.0, m.2, m.1)) == free_frames(ls) + pow2(order as nat)
        }),
{
    let m = merge(ls, base, limit, addr, order);
    lemma_merge_free_frames(ls, base, limit, addr, order);
    lemma_push_free_frames(m.0, m.2, m.1, 21);
}

/// Allocating a block of `order` and freeing it again leaves as many free
/// frames as before, whatever the block merges with when freed.
pub proof fn lemma_allocate_then_free_frames(ls: Seq<Seq<u64>>, base: u64, limit: u64, order: int)
    requires
        ls.len() == 21,
        0 <= order <= 20,
        first_nonempty(ls, order) <= 20,
    ensures
        ({
            let o = first_nonempty(ls, order);
            let a = ls[o].last();
            let after_alloc = split(pop_at(ls, o), a, o, order);
            let m = merge(after_alloc, base, limit, a, order);
            free_frames(push_at(m.0, m.2, m.1)) == free_frames(ls)
        }),
{
    let o = first_nonempty(ls, order);
    let a = ls[o].last();
    lemma_allocate_takes_frames(ls, order);
    lemma_first_nonempty_at_least(ls, order);
    let after_alloc = split(pop_at(ls, o), a, o, order);
    lemma_split_len(pop_at(ls, o), a, o, order);
    lemma_free_returns_frames(after_alloc, base, limit, a, order);
}

/// Splitting keeps the number of lists.
proof fn lemma_split_len(ls: Seq<Seq<u64>>, addr: u64, hi: int, lo: int)
    requires
        ls.len() == 21,
        lo <= hi <= 21,
        0 <= lo,
    ensures
        split(ls, addr, hi, lo).len() == 21,
    decreases hi - lo,
{
    if hi > lo {
        lemma_split_len(push_at(ls, hi - 1, (addr + block_bytes((hi - 1) as nat)) as u64), addr, hi - 1, lo);
    }
}

/// Freeing the block that an allocation of `order` took from a non-empty
/// list of that very order, while the block's buddy is not free, gives back
/// the free lists from before the allocation.
pub proof fn lemma_free_after_exact_fit(ls: Seq<Seq<u64>>, base: u64, limit: u64, order: int)
    requires
        ls.len() == 21,
        0 <= order <= 20,
        ls[order].len() > 0,
        order == 20 || !free_in(pop_at(ls, order), base, limit, ls[order].last() ^ ((4096u64 << (order as u64)) as u64), order),
    ensures
        first_nonempty(ls, order) == order,
        ({
            let a = ls[order].last();
            let after_alloc = split(pop_at(ls, order), a, order, order);
            let m = merge(after_alloc, base, limit, a, order);
            push_at(m.0, m.2, m.1) == ls
        }),
{
    let a = ls[order].last();
    assert(ls[order].drop_last().push(a) =~= ls[order]);
    assert(push_at(pop_at(ls, order), order, a) =~= ls);
}

/// Every listed block of order `o` ends inside the address space, and
/// there is a list for each order.
pub open spec fn blocks_fit(ls: Seq<Seq<u64>>) -> bool {
    &&& ls.len() == 21
    &&& forall|o: int, i: int| 0 <= o < 21 && 0 <= i < ls[o].len() ==> #[trigger] ls[o][i] + block_bytes(o as nat) <= u64::MAX
}

/// The index of the first occurrence of `addr` in `l`.
fn find_index(l: &Vec<u64>, addr: u64) -> (r: Option<usize>)
    ensures
        match r {
            Some(i) => i < l@.len() && l@[i as int] == addr && forall|j: int| 0 <= j < i ==> l@[j] != addr,
            None => !l@.contains(addr),
        },
{
    let mut i: usize = 0;
    while i < l.len()
        invariant
            i <= l@.len(),
            forall|j: int| 0 <= j < i ==> l@[j] != addr,
        decreases l@.len() - i,
    {
        if l[i] == addr {
            return Some(i);
        }
        i += 1;
    }
    proof {
        assert(!l@.contains(addr)) by {
            if l@.contains(addr) {
                let j = choose|j: int| 0 <= j < l@.len() && l@[j] == addr;
                assert(l@[j] != addr);
            }
        }
    }
    None
}

/// The order `init` carves next: the largest order whose block fits in
/// `remaining` and to whose size `current` is aligned, else 0.
fn pick_order(current: u64, remaining: u64) -> (o: usize)
    requires
        remaining >= 4096,
    ensures
        o as int == carve_order(current, remaining, 20),
        o <= 20,
{
    let mut order: usize = MAX_ORDER;
    while order > 0
        invariant
            order <= 20,
            carve_order(current, remaining, order as int) == carve_order(current, remaining, 20),
        decreases order,
    {
        proof {
            lemma_block_bytes(order as u64);
        }
        let block_size = PAGE_SIZE << (order as u64);
        if remaining >= block_size && current % block_size == 0 {
            return order;
        }
        order -= 1;
    }
    order
}

/// The buddy allocator.
pub struct BuddyAllocator {
    base: PhysAddr,
    total_frames: usize,
    free_lists: Vec<Vec<u64>>,
    used_frames: usize,
    initialized: bool,
}

impl BuddyAllocator {
    /// The free block addresses, per order.
    pub closed spec fn lists(&self) -> Seq<Seq<u64>> {
        Seq::new(self.free_lists@.len(), |o: int| self.free_lists@[o]@)
    }

    /// The start of the managed range.
    pub closed spec fn base(&self) -> u64 {
        self.base.0
    }

    /// Number of frames in the managed range.
    pub closed spec fn total(&self) -> usize {
        self.total_frames
    }

    /// The end of the managed range.
    pub open spec fn limit(&self) -> u64 {
        (self.base() + self.total() * 4096) as u64
    }

    /// Frames handed out and not returned (counted with wrap-around).
    pub closed spec fn used(&self) -> usize {
        self.used_frames
    }

    /// `init` has run.
    pub closed spec fn initialized(&self) -> bool {
        self.initialized
    }

    /// One list per order, the managed range and every listed block inside
    /// the address space.
    pub open spec fn wf(&self) -> bool {
        &&& blocks_fit(self.lists())
        &&& self.base() + self.total() * 4096 <= u64::MAX
    }

    /// An empty, uninitialised allocator.
    pub fn new() -> (a: Self)
        ensures
            a.wf(),
            a.lists() == Seq::new(21, |o: int| Seq::<u64>::empty()),
            a.base() == 0,
            a.total() == 0,
            a.used() == 0,
            !a.initialized(),
    {
        let mut free_lists: Vec<Vec<u64>> = Vec::new();
        while free_lists.len() < MAX_ORDER + 1
            invariant
                free_lists@.len() <= 21,
                forall|o: int| 0 <= o < free_lists@.len() ==> #[trigger] free_lists@[o]@ == Seq::<u64>::empty(),
            decreases 21 - free_lists@.len(),
        {
            free_lists.push(Vec::new());
        }
        let a = BuddyAllocator {
            base: PhysAddr::new(0),
            total_frames: 0,
            free_lists,
            used_frames: 0,
            initialized: false,
        };
        assert(a.lists() =~= Seq::new(21, |o: int| Seq::<u64>::empty()));
        a
    }

    proof fn lemma_lists_len(&self)
        ensures
            self.lists().len() == self.free_lists@.len(),
            forall|o: int| 0 <= o < self.free_lists@.len() ==> #[trigger] self.lists()[o] == self.free_lists@[o]@,
    {
    }

    /// Put the block at `addr` on the list of order `o`.
    fn push_block(&mut self, o: usize, addr: u64)
        requires
            (o as int) < old(self).lists().len(),
        ensures
            final(self).lists() == push_at(old(self).lists(), o as int, addr),
            final(self).base() == old(self).base(),
            final(self).total() == old(self).total(),
            final(self).used() == old(self).used(),
            final(self).initialized() == old(self).initialized(),
    {
        let ghost before = self.lists();
        let mut l = self.free_lists.remove(o);
        l.push(addr);
        self.free_lists.insert(o, l);
        assert(self.lists() =~= push_at(before, o as int, addr));
    }

    /// Take the newest block off the non-empty list of order `o`.
    fn pop_block(&mut self, o: usize) -> (a: u64)
        requires
            (o as int) < old(self).lists().len(),
            old(self).lists()[o as int].len() > 0,
        ensures
            a == old(self).lists()[o as int].last(),
            final(self).lists() == pop_at(old(self).lists(), o as int),
            final(self).base() == old(self).base(),
            final(self).total() == old(self).total(),
            final(self).used() == old(self).used(),
            final(self).initialized() == old(self).initialized(),
    {
        let ghost before = self.lists();
        let mut l = self.free_lists.remove(o);
        let a = match l.pop() {
            Some(x) => x,
            None => 0,
        };
        self.free_lists.insert(o, l);
        assert(self.lists() =~= pop_at(before, o as int));
        a
    }

    /// The list of order `o` holds `addr`.
    fn list_contains(&self, o: usize, addr: u64) -> (b: bool)
        requires
            (o as int) < self.lists().len(),
        ensures
            b == self.lists()[o as int].contains(addr),
    {
        proof {
            self.lemma_lists_len();
        }
        match find_index(&self.free_lists[o], addr) {
            Some(i) => {
                assert(self.lists()[o as int][i as int] == addr);
                true
            },
            None => false,
        }
    }

    /// Take the first occurrence of `addr` off the list of order `o`.
    fn remove_block(&mut self, o: usize, addr: u64)
        requires
            (o as int) < old(self).lists().len(),
        ensures
            final(self).lists() == remove_at(old(self).lists(), o as int, addr),
            final(self).base() == old(self).base(),
            final(self).total() == old(self).total(),
            final(self).used() == old(self).used(),
            final(self).initialized() == old(self).initialized(),
    {
        let ghost before = self.lists();
        let mut l = self.free_lists.remove(o);
        let ghost s = l@;
        proof {
            s.index_of_first_ensures(addr);
        }
        match find_index(&l, addr) {
            Some(i) => {
                proof {
                    assert(s.contains(addr));
                    let k = s.index_of_first(addr)->0;
                    assert(k == i) by {
                        if k < i {
                            assert(s[k] != addr);
                        } else if k > i {
                            assert(s[i as int] != addr);
                        }
                    }
                }
                l.remove(i);
            },
            None => {},
        }
        self.free_lists.insert(o, l);
        assert(self.lists() =~= remove_at(before, o as int, addr));
    }

    /// The block at `addr` of order `o` is free and inside the managed range.
    fn is_free(&self, addr: u64, o: usize) -> (b: bool)
        requires
            self.wf(),
            o <= 20,
        ensures
            b == free_in(self.lists(), self.base(), self.limit(), addr, o as int),
    {
        if addr < self.base.as_u64() {
            return false;
        }
        let max_addr = self.base.as_u64() + (self.total_frames as u64) * PAGE_SIZE;
        if addr >= max_addr {
            return false;
        }
        self.list_contains(o, addr)
    }

    /// Manage `[base, base + size)`: record the range and carve it into
    /// free blocks, largest aligned block first.
    pub fn init(&mut self, base: PhysAddr, size: u64)
        requires
            old(self).wf(),
            base.0 + size <= u64::MAX,
            size / 4096 <= usize::MAX,
        ensures
            final(self).wf(),
            final(self).base() == base.0,
            final(self).total() == size / 4096,
            final(self).initialized(),
            final(self).used() == old(self).used(),
            final(self).lists() == carve(old(self).lists(), base.0, size),
            free_frames(final(self).lists()) == free_frames(old(self).lists()) + size / 4096,
    {
        proof {
            lemma_carve_free_frames(old(self).lists(), base.0, size);
        }
        self.base = base;
        self.total_frames = (size / PAGE_SIZE) as usize;
        self.initialized = true;
        assert(self.total_frames * 4096 <= size) by (nonlinear_arith)
            requires
                self.total_frames == size / 4096,
        ;

        let mut remaining = size;
        let mut current = base.as_u64();
        let ghost start_lists = self.lists();
        while remaining >= PAGE_SIZE
            invariant
                self.wf(),
                current + remaining <= u64::MAX,
                self.base() == base.0,
                self.total() == size / 4096,
                self.initialized(),
                self.used() == old(self).used(),
                carve(self.lists(), current, remaining) == carve(start_lists, base.0, size),
            decreases remaining,
        {
            let order = pick_order(current, remaining);
            proof {
                lemma_block_bytes(order as u64);
                lemma_carve_order(current, remaining, 20);
            }
            let block_size = PAGE_SIZE << (order as u64);
            let ghost ls = self.lists();
            proof {
                assert(carve(ls, current, remaining) == carve(push_at(ls, order as int, current), (current + block_size) as u64, (remaining - block_size) as u64));
            }
            self.push_block(order, current);
            proof {
                assert forall|o: int, i: int| 0 <= o < 21 && 0 <= i < self.lists()[o].len() implies #[trigger] self.lists()[o][i] + block_bytes(o as nat) <= u64::MAX by {
                    if o == order && i == ls[o].len() {
                        assert(self.lists()[o][i] == current);
                    } else {
                        assert(self.lists()[o][i] == ls[o][i]);
                    }
                }
            }
            current = current + block_size;
            remaining = remaining - block_size;
        }
    }

    /// Allocate a block of `order`: take the newest block of the smallest
    /// non-empty order at least `order`, and put the upper halves split
    /// off it back on the lists.
    pub fn allocate(&mut self, order: usize) -> (r: Result<PhysFrame, MemoryError>)
        requires
            old(self).wf(),
        ensures
            final(self).wf(),
            final(self).base() == old(self).base(),
            final(self).total() == old(self).total(),
            final(self).initialized() == old(self).initialized(),
            order > MAX_ORDER ==> r == Err::<PhysFrame, MemoryError>(MemoryError::InvalidOrder) && final(self).lists() == old(self).lists()
                && final(self).used() == old(self).used(),
            order <= MAX_ORDER && first_nonempty(old(self).lists(), order as int) > 20 ==> r == Err::<PhysFrame, MemoryError>(MemoryError::OutOfFrames)
                && final(self).lists() == old(self).lists() && final(self).used() == old(self).used(),
            order <= MAX_ORDER && first_nonempty(old(self).lists(), order as int) <= 20 ==> {
                let o = first_nonempty(old(self).lists(), order as int);
                let a = old(self).lists()[o].last();
                &&& r == Ok::<PhysFrame, MemoryError>(PhysFrame { start: PhysAddr(a), order })
                &&& final(self).lists() == split(pop_at(old(self).lists(), o), a, o, order as int)
                &&& final(self).used() == vstd::wrapping::usize_specs::wrapping_add(old(self).used(), pow2(order as nat) as usize)
            },
    {
        if order > MAX_ORDER {
            return Err(MemoryError::InvalidOrder);
        }
        let ghost ls0 = self.lists();
        let mut actual_order = order;
        while actual_order <= MAX_ORDER && self.free_lists[actual_order].len() == 0
            invariant
                self.wf(),
                self.lists() == ls0,
                order <= actual_order <= 21,
                first_nonempty(ls0, order as int) == first_nonempty(ls0, actual_order as int),
            decreases 21 - actual_order,
        {
            proof {
                self.lemma_lists_len();
            }
            actual_order += 1;
        }
        proof {
            self.lemma_lists_len();
        }
        if actual_order > MAX_ORDER {
            return Err(MemoryError::OutOfFrames);
        }
        let o = actual_order;
        let addr = self.pop_block(actual_order);
        proof {
            assert(ls0[o as int].contains(addr)) by {
                assert(ls0[o as int][ls0[o as int].len() - 1] == addr);
            }
            let k = choose|k: int| 0 <= k < ls0[o as int].len() && ls0[o as int][k] == addr;
            assert(ls0[o as int][k] + block_bytes(o as nat) <= u64::MAX);
        }
        let ghost popped = self.lists();
        while actual_order > order
            invariant
                self.wf(),
                order <= actual_order <= o,
                o <= 20,
                addr + block_bytes(o as nat) <= u64::MAX,
                self.base() == old(self).base(),
                self.total() == old(self).total(),
                self.initialized() == old(self).initialized(),
                self.used() == old(self).used(),
                split(popped, addr, o as int, order as int) == split(self.lists(), addr, actual_order as int, order as int),
            decreases actual_order,
        {
            actual_order -= 1;
            proof {
                lemma_block_bytes(actual_order as u64);
                lemma_block_bytes_monotonic((actual_order + 1) as nat, o as nat);
            }
            let buddy_addr = addr + (PAGE_SIZE << (actual_order as u64));
            let ghost ls = self.lists();
            self.push_block(actual_order, buddy_addr);
            proof {
                assert forall|k: int, i: int| 0 <= k < 21 && 0 <= i < self.lists()[k].len() implies #[trigger] self.lists()[k][i] + block_bytes(k as nat) <= u64::MAX by {
                    if k == actual_order && i == ls[k].len() {
                        assert(self.lists()[k][i] == buddy_addr);
                    } else {
                        assert(self.lists()[k][i] == ls[k][i]);
                    }
                }
            }
        }
        proof {
            lemma_block_bytes(order as u64);
        }
        let frames_in_block: usize = 1usize << order;
        self.used_frames = self.used_frames.wrapping_add(frames_in_block);
        Ok(PhysFrame::new(PhysAddr::new(addr), order))
    }

    /// Allocate a block of at least `size` bytes: the smallest block that
    /// holds them. Sizes of 0 and above the largest block (4 GiB) are
    /// refused.
    pub fn allocate_sized(&mut self, size: u64) -> (r: Result<PhysFrame, MemoryError>)
        requires
            old(self).wf(),
            size <= u64::MAX - 4095,
        ensures
            final(self).wf(),
            final(self).base() == old(self).base(),
            final(self).total() == old(self).total(),
            final(self).initialized() == old(self).initialized(),
            !sized_request_fits(size) ==> r == Err::<PhysFrame, MemoryError>(MemoryError::InvalidSize) && *final(self) == *old(self),
            sized_request_fits(size) ==> {
                let order = sized_order(size);
                &&& order <= 20
                &&& block_bytes(order) >= size
                &&& (first_nonempty(old(self).lists(), order as int) > 20 ==> r == Err::<PhysFrame, MemoryError>(MemoryError::OutOfFrames)
                    && final(self).lists() == old(self).lists() && final(self).used() == old(self).used())
                &&& (first_nonempty(old(self).lists(), order as int) <= 20 ==> {
                    let o = first_nonempty(old(self).lists(), order as int);
                    let a = old(self).lists()[o].last();
                    &&& r == Ok::<PhysFrame, MemoryError>(PhysFrame { start: PhysAddr(a), order: order as usize })
                    &&& final(self).lists() == split(pop_at(old(self).lists(), o), a, o, order as int)
                    &&& final(self).used() == vstd::wrapping::usize_specs::wrapping_add(old(self).used(), pow2(order) as usize)
                })
            },
    {
        if size == 0 || size > MAX_BLOCK_BYTES {
            return Err(MemoryError::InvalidSize);
        }
        let pages_needed = (size + PAGE_SIZE - 1) / PAGE_SIZE;
        assert(pages_needed <= 0x10_0000);
        let order = order_for_pages(pages_needed as usize);
        proof {
            lemma_sized_block(size, order as nat);
        }
        self.allocate(order)
    }

    /// Return a block: merge it with its free buddies, then put the merged
    /// block on the list of the order the merging reached.
    pub fn deallocate(&mut self, frame: PhysFrame) -> (r: Result<(), MemoryError>)
        requires
            old(self).wf(),
            frame.order <= MAX_ORDER,
            frame.start.0 + block_bytes(frame.order as nat) <= u64::MAX,
        ensures
            final(self).wf(),
            r == Ok::<(), MemoryError>(()),
            final(self).base() == old(self).base(),
            final(self).total() == old(self).total(),
            final(self).initialized() == old(self).initialized(),
            final(self).used() == vstd::wrapping::usize_specs::wrapping_sub(old(self).used(), pow2(frame.order as nat) as usize),
            ({
                let m = merge(old(self).lists(), old(self).base(), old(self).limit(), frame.start.0, frame.order as int);
                final(self).lists() == push_at(m.0, m.2, m.1)
            }),
    {
        let order = frame.order;
        let mut addr = frame.start.as_u64();
        proof {
            lemma_block_bytes(order as u64);
        }
        self.used_frames = self.used_frames.wrapping_sub(1usize << order);
        let ghost ls0 = self.lists();
        let mut current_order = order;
        let mut done = false;
        while current_order < MAX_ORDER && !done
            invariant
                self.wf(),
                order <= current_order <= 20,
                addr + block_bytes(current_order as nat) <= u64::MAX,
                self.base() == old(self).base(),
                self.total() == old(self).total(),
                self.initialized() == old(self).initialized(),
                self.used() == vstd::wrapping::usize_specs::wrapping_sub(old(self).used(), pow2(frame.order as nat) as usize),
                merge(ls0, self.base(), self.limit(), frame.start.0, order as int) == merge(self.lists(), self.base(), self.limit(), addr, current_order as int),
                done ==> merge(self.lists(), self.base(), self.limit(), addr, current_order as int) == (self.lists(), addr, current_order as int),
            decreases 2 * (20 - current_order) + (if done { 0int } else { 1int }),
        {
            proof {
                lemma_block_bytes(current_order as u64);
            }
            let buddy_addr = addr ^ (PAGE_SIZE << (current_order as u64));
            if !self.is_free(buddy_addr, current_order) {
                done = true;
            } else {
                let ghost ls = self.lists();
                self.remove_block(current_order, buddy_addr);
                proof {
                    assert forall|k: int, i: int| 0 <= k < 21 && 0 <= i < self.lists()[k].len() implies #[trigger] self.lists()[k][i] + block_bytes(k as nat) <= u64::MAX by {
                        if k == current_order {
                            ls[k].index_of_first_ensures(buddy_addr);
                            match ls[k].index_of_first(buddy_addr) {
                                Some(j) => {
                                    if i < j {
                                        assert(self.lists()[k][i] == ls[k][i]);
                                    } else {
                                        assert(self.lists()[k][i] == ls[k][i + 1]);
                                    }
                                },
                                None => {
                                    assert(self.lists()[k][i] == ls[k][i]);
                                },
                            }
                        } else {
                            assert(self.lists()[k][i] == ls[k][i]);
                        }
                    }
                }
                proof {
                    lemma_buddy_pair(addr, current_order as u64);
                    assert(ls[current_order as int].contains(buddy_addr));
                    let j = choose|j: int| 0 <= j < ls[current_order as int].len() && ls[current_order as int][j] == buddy_addr;
                    assert(ls[current_order as int][j] + block_bytes(current_order as nat) <= u64::MAX);
                    lemma_block_bytes(current_order as u64);
                }
                if buddy_addr < addr {
                    addr = buddy_addr;
                }
                current_order += 1;
            }
        }
        let ghost ls = self.lists();
        self.push_block(current_order, addr);
        proof {
            assert forall|k: int, i: int| 0 <= k < 21 && 0 <= i < self.lists()[k].len() implies #[trigger] self.lists()[k][i] + block_bytes(k as nat) <= u64::MAX by {
                if k == current_order && i == ls[k].len() {
                    assert(self.lists()[k][i] == addr);
                } else {
                    assert(self.lists()[k][i] == ls[k][i]);
                }
            }
        }
        Ok(())
    }

    /// Frame usage counters; frames in use beyond the total count as no
    /// free frames.
    pub fn stats(&self) -> (s: AllocatorStats)
        requires
            self.wf(),
            self.used() * 4096 <= u64::MAX,
        ensures
            s.total_frames == self.total(),
            s.used_frames == self.used(),
            s.free_frames == (if self.used() <= self.total() { self.total() - self.used() } else { 0 }),
            s.total_bytes == self.total() * 4096,
            s.used_bytes == self.used() * 4096,
            s.free_bytes == s.free_frames * 4096,
    {
        let used = self.used_frames;
        let free = self.total_frames.saturating_sub(used);
        assert(free * 4096 <= u64::MAX) by (nonlinear_arith)
            requires
                free <= self.total_frames,
                self.total_frames * 4096 <= u64::MAX,
        ;
        AllocatorStats {
            total_frames: self.total_frames,
            used_frames: used,
            free_frames: free,
            total_bytes: self.total_frames as u64 * PAGE_SIZE,
            used_bytes: used as u64 * PAGE_SIZE,
            free_bytes: free as u64 * PAGE_SIZE,
        }
    }

    /// `init` has run.
    pub fn is_initialized(&self) -> (b: bool)
        ensures
            b == self.initialized(),
    {
        self.initialized
    }
}

/// The order `order_for_pages` gives for `pages`: the smallest order
/// whose block holds `pages` pages, capped at `MAX_ORDER`.
pub open spec fn order_of_pages(pages: nat) -> nat {
    choose|o: nat| order_fits(pages, o)
}

/// `o` is the smallest order whose block holds `pages` pages, or
/// `MAX_ORDER` if none up to it does.
pub open spec fn order_fits(pages: nat, o: nat) -> bool {
    &&& o <= 20
    &&& (pow2(o) >= pages || o == 20)
    &&& (o == 0 || pow2((o - 1) as nat) < pages)
}

/// Bytes in the largest block (order 20): 4 GiB.
pub const MAX_BLOCK_BYTES: u64 = 0x1_0000_0000;

/// A sized request is served: it asks for at least one byte and at most
/// the largest block.
pub open spec fn sized_request_fits(size: u64) -> bool {
    0 < size <= MAX_BLOCK_BYTES
}

/// The order of the block a sized request gets: the smallest that holds
/// its pages.
pub open spec fn sized_order(size: u64) -> nat {
    order_of_pages(((size + 4095) / 4096) as nat)
}

/// A block of an order that fits a sized request's pages holds it.
proof fn lemma_sized_block(size: u64, o: nat)
    requires
        sized_request_fits(size),
        order_fits(((size + 4095) / 4096) as nat, o),
    ensures
        block_bytes(o) >= size,
{
    let pages = ((size + 4095) / 4096) as nat;
    assert(pages <= 0x10_0000);
    lemma2_to64();
    assert(pow2(o) >= pages) by {
        if o == 20 {
            assert(pow2(20) == 0x10_0000);
        }
    }
    assert(4096 * pow2(o) >= 4096 * pages) by (nonlinear_arith)
        requires pow2(o) >= pages;
    assert(4096 * pages >= size) by (nonlinear_arith)
        requires pages == (size + 4095) / 4096;
}

/// The smallest order whose block holds `pages` pages, capped at
/// `MAX_ORDER`; 0 for no pages.
pub fn order_for_pages(pages: usize) -> (o: usize)
    requires
        pages <= usize::MAX / 2 + 1,
    ensures
        o <= 20,
        pow2(o as nat) >= pages || o == 20,
        o == 0 || pow2((o - 1) as nat) < pages,
        o as nat == order_of_pages(pages as nat),
{
    proof {
        lemma2_to64();
    }
    if pages == 0 {
        proof {
            lemma_order_of_pages_unique(pages as nat, 0);
        }
        return 0;
    }
    let mut order: usize = 0;
    let mut size: usize = 1;
    while size < pages
        invariant
            size == pow2(order as nat),
            order == 0 || pow2((order - 1) as nat) < pages,
            pages <= usize::MAX / 2 + 1,
            pages > 0,
            order < 64,
        decreases 64 - order,
    {
        proof {
            lemma2_to64();
            vstd::arithmetic::power2::lemma_pow2_pos(order as nat);
            lemma_pow2_unfold((order + 1) as nat);
            lemma_pow2_strictly_increases(order as nat, (order + 1) as nat);
            if order >= 63 {
                if order > 63 {
                    lemma_pow2_strictly_increases(63, order as nat);
                }
                assert(size >= 0x8000_0000_0000_0000);
                assert(false);
            }
        }
        order += 1;
        size = size * 2;
    }
    let r = if order < MAX_ORDER { order } else { MAX_ORDER };
    proof {
        if order > 20 {
            lemma_pow2_strictly_increases(19, (order - 1) as nat);
        }
        lemma_order_of_pages_unique(pages as nat, r as nat);
    }
    r
}

/// Exactly one order meets the conditions `order_of_pages` chooses by.
pub proof fn lemma_order_of_pages_unique(pages: nat, o: nat)
    requires
        order_fits(pages, o),
    ensures
        order_of_pages(pages) == o,
{
    let c = order_of_pages(pages);
    assert(order_fits(pages, c));
    if c < o {
        assert(pow2(c) >= pages);
        if c < o - 1 {
            lemma_pow2_strictly_increases(c, (o - 1) as nat);
        }
    } else if c > o {
        assert(pow2(o) >= pages);
        if o < c - 1 {
            lemma_pow2_strictly_increases(o, (c - 1) as nat);
        }
    }
}

/// A range of physical memory kept from allocation.
#[derive(Debug, Clone, Copy, PartialEq, Eq, Structural)]
pub struct ReservedRange {
    pub start: PhysAddr,
    pub end: PhysAddr,
}

/// The frame allocator: a buddy allocator and up to 16 reserved ranges.
pub struct FrameAllocator {
    pub buddy: BuddyAllocator,
    pub reserved_regions: Vec<ReservedRange>,
}

impl FrameAllocator {
    /// The reserved ranges, in the order they were added.
    pub open spec fn reserved(&self) -> Seq<ReservedRange> {
        self.reserved_regions@
    }

    /// The buddy allocator is well formed and at most 16 ranges are kept.
    pub open spec fn wf(&self) -> bool {
        &&& self.buddy.wf()
        &&& self.reserved().len() <= 16
    }

    /// A fresh allocator with nothing reserved.
    pub fn new() -> (a: Self)
        ensures
            a.wf(),
            a.reserved().len() == 0,
            a.buddy.lists() == Seq::new(21, |o: int| Seq::<u64>::empty()),
            free_frames(a.buddy.lists()) == 0,
            a.buddy.used() == 0,
            a.buddy.total() == 0,
            !a.buddy.initialized(),
    {
        let a = FrameAllocator { buddy: BuddyAllocator::new(), reserved_regions: Vec::new() };
        proof {
            lemma_no_free_frames(a.buddy.lists(), 21);
        }
        a
    }

    /// Manage `[base, base + size)`.
    pub fn init(&mut self, base: PhysAddr, size: u64)
        requires
            old(self).wf(),
            base.0 + size <= u64::MAX,
            size / 4096 <= usize::MAX,
        ensures
            final(self).wf(),
            final(self).reserved() == old(self).reserved(),
            final(self).buddy.base() == base.0,
            final(self).buddy.total() == size / 4096,
            final(self).buddy.initialized(),
            final(self).buddy.used() == old(self).buddy.used(),
            final(self).buddy.lists() == carve(old(self).buddy.lists(), base.0, size),
            free_frames(final(self).buddy.lists()) == free_frames(old(self).buddy.lists()) + size / 4096,
    {
        self.buddy.init(base, size);
    }

    /// Allocate a block of `order` (see `BuddyAllocator::allocate`).
    pub fn allocate(&mut self, order: usize) -> (r: Result<PhysFrame, MemoryError>)
        requires
            old(self).wf(),
        ensures
            final(self).wf(),
            final(self).reserved() == old(self).reserved(),
            order > MAX_ORDER ==> r == Err::<PhysFrame, MemoryError>(MemoryError::InvalidOrder),
            order <= MAX_ORDER ==> (r is Err <==> first_nonempty(old(self).buddy.lists(), order as int) > 20),
            order <= MAX_ORDER && first_nonempty(old(self).buddy.lists(), order as int) > 20 ==> r == Err::<PhysFrame, MemoryError>(MemoryError::OutOfFrames),
            order <= MAX_ORDER && first_nonempty(old(self).buddy.lists(), order as int) <= 20 ==> {
                let o = first_nonempty(old(self).buddy.lists(), order as int);
                let a = old(self).buddy.lists()[o].last();
                &&& r == Ok::<PhysFrame, MemoryError>(PhysFrame { start: PhysAddr(a), order })
                &&& final(self).buddy.lists() == split(pop_at(old(self).buddy.lists(), o), a, o, order as int)
            },
    {
        self.buddy.allocate(order)
    }

    /// Allocate a block of at least `size` bytes (see
    /// `BuddyAllocator::allocate_sized`).
    pub fn allocate_sized(&mut self, size: u64) -> (r: Result<PhysFrame, MemoryError>)
        requires
            old(self).wf(),
            size <= u64::MAX - 4095,
        ensures
            final(self).wf(),
            final(self).reserved() == old(self).reserved(),
            !sized_request_fits(size) ==> r == Err::<PhysFrame, MemoryError>(MemoryError::InvalidSize) && *final(self) == *old(self),
            sized_request_fits(size) ==> {
                let order = sized_order(size);
                &&& order <= 20
                &&& block_bytes(order) >= size
                &&& (first_nonempty(old(self).buddy.lists(), order as int) > 20 ==> r == Err::<PhysFrame, MemoryError>(MemoryError::OutOfFrames))
                &&& (first_nonempty(old(self).buddy.lists(), order as int) <= 20 ==> {
                    let o = first_nonempty(old(self).buddy.lists(), order as int);
                    let a = old(self).buddy.lists()[o].last();
                    &&& r == Ok::<PhysFrame, MemoryError>(PhysFrame { start: PhysAddr(a), order: order as usize })
                    &&& final(self).buddy.lists() == split(pop_at(old(self).buddy.lists(), o), a, o, order as int)
                })
            },
    {
        self.buddy.allocate_sized(size)
    }

    /// Allocate one base page.
    pub fn allocate_page(&mut self) -> (r: Result<PhysFrame, MemoryError>)
        requires
            old(self).wf(),
        ensures
            final(self).wf(),
            final(self).reserved() == old(self).reserved(),
            r is Err <==> first_nonempty(old(self).buddy.lists(), 0) > 20,
            r is Err ==> r == Err::<PhysFrame, MemoryError>(MemoryError::OutOfFrames),
            r matches Ok(f) ==> f.order == 0 && f.start.0 == old(self).buddy.lists()[first_nonempty(old(self).buddy.lists(), 0)].last(),
    {
        self.allocate(ORDER_4KB)
    }

    /// Allocate one 2 MiB block.
    pub fn allocate_2mb(&mut self) -> (r: Result<PhysFrame, MemoryError>)
        requires
            old(self).wf(),
        ensures
            final(self).wf(),
            final(self).reserved() == old(self).reserved(),
            r is Err <==> first_nonempty(old(self).buddy.lists(), 9) > 20,
            r is Err ==> r == Err::<PhysFrame, MemoryError>(MemoryError::OutOfFrames),
            r matches Ok(f) ==> f.order == 9 && f.start.0 == old(self).buddy.lists()[first_nonempty(old(self).buddy.lists(), 9)].last(),
    {
        self.allocate(ORDER_2MB)
    }

    /// Return a block (see `BuddyAllocator::deallocate`).
    pub fn deallocate(&mut self, frame: PhysFrame) -> (r: Result<(), MemoryError>)
        requires
            old(self).wf(),
            frame.order <= MAX_ORDER,
            frame.start.0 + block_bytes(frame.order as nat) <= u64::MAX,
        ensures
            final(self).wf(),
            final(self).reserved() == old(self).reserved(),
            r == Ok::<(), MemoryError>(()),
            ({
                let m = merge(old(self).buddy.lists(), old(self).buddy.base(), old(self).buddy.limit(), frame.start.0, frame.order as int);
                final(self).buddy.lists() == push_at(m.0, m.2, m.1)
            }),
    {
        self.buddy.deallocate(frame)
    }

    /// Record a reserved range; ignored once 16 are recorded.
    pub fn add_reserved(&mut self, start: PhysAddr, end: PhysAddr)
        requires
            old(self).wf(),
        ensures
            final(self).wf(),
            final(self).buddy == old(self).buddy,
            final(self).reserved() == (if old(self).reserved().len() < 16 {
                old(self).reserved().push(ReservedRange { start, end })
            } else {
                old(self).reserved()
            }),
    {
        if self.reserved_regions.len() < 16 {
            self.reserved_regions.push(ReservedRange { start, end });
        }
    }

    /// `addr` lies in a reserved range.
    pub fn is_reserved(&self, addr: PhysAddr) -> (b: bool)
        ensures
            b == exists|i: int| 0 <= i < self.reserved().len() && #[trigger] self.reserved()[i].start.0 <= addr.0
                && addr.0 < self.reserved()[i].end.0,
    {
        let mut i: usize = 0;
        while i < self.reserved_regions.len()
            invariant
                i <= self.reserved().len(),
                forall|j: int| 0 <= j < i ==> !(#[trigger] self.reserved()[j].start.0 <= addr.0 && addr.0 < self.reserved()[j].end.0),
            decreases self.reserved().len() - i,
        {
            let r = self.reserved_regions[i];
            if addr.as_u64() >= r.start.as_u64() && addr.as_u64() < r.end.as_u64() {
                assert(self.reserved()[i as int].start.0 <= addr.0 && addr.0 < self.reserved()[i as int].end.0);
                return true;
            }
            i += 1;
        }
        false
    }

    /// Frame usage counters of the buddy allocator.
    pub fn stats(&self) -> (s: AllocatorStats)
        requires
            self.wf(),
            self.buddy.used() * 4096 <= u64::MAX,
        ensures
            s.total_frames == self.buddy.total(),
            s.used_frames == self.buddy.used(),
            s.free_frames == (if self.buddy.used() <= self.buddy.total() { self.buddy.total() - self.buddy.used() } else { 0 }),
    {
        self.buddy.stats()
    }
}

} // verus!
