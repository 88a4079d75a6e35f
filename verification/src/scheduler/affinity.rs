//! Placing tasks on processors by affinity and load.

use crate::scheduler::task::{mask_allows, CpuId, Task};
use vstd::prelude::*;

verus! {

/// The load of processor `cpu`, 0 where none is reported.
pub open spec fn load_at(loads: Seq<usize>, cpu: int) -> usize {
    if 0 <= cpu < loads.len() { loads[cpu] } else { 0 }
}

/// The running choice of a scan over the first `n` processors that `mask`
/// allows: the processor so far and its load (see `least_choice`).
pub open spec fn best_allowed(mask: u64, loads: Seq<usize>, n: nat) -> (u32, usize)
    decreases n,
{
    if n == 0 {
        (0, usize::MAX)
    } else {
        let prev = best_allowed(mask, loads, (n - 1) as nat);
        let cpu = (n - 1) as u32;
        if mask_allows(mask, cpu) && load_at(loads, n - 1) < prev.1 {
            (cpu, load_at(loads, n - 1))
        } else {
            prev
        }
    }
}

/// The running choice of a scan over the first `n` loads: the processor so
/// far and its load (see `least_choice`).
pub open spec fn least_loaded(loads: Seq<usize>, n: nat) -> (u32, usize)
    decreases n,
{
    if n == 0 {
        (0, usize::MAX)
    } else {
        let prev = least_loaded(loads, (n - 1) as nat);
        if loads[n - 1] < prev.1 {
            ((n - 1) as u32, loads[n - 1])
        } else {
            prev
        }
    }
}

/// Processor `k`, among the first `n`, may be chosen: `allowed` admits
/// it and its load is below `usize::MAX`.
pub open spec fn eligible(allowed: spec_fn(int) -> bool, loads: Seq<usize>, n: int, k: int) -> bool {
    0 <= k < n && allowed(k) && load_at(loads, k) < usize::MAX
}

/// `c` is the processor to choose among the first `n`: the first eligible
/// one with the least load, or 0 when none is eligible.
pub open spec fn least_choice(allowed: spec_fn(int) -> bool, loads: Seq<usize>, n: int, c: int) -> bool {
    if exists|k: int| #[trigger] eligible(allowed, loads, n, k) {
        &&& eligible(allowed, loads, n, c)
        &&& forall|k: int| #[trigger] eligible(allowed, loads, n, k) ==> load_at(loads, c) <= load_at(loads, k)
        &&& forall|k: int| #[trigger] eligible(allowed, loads, n, k) && k < c ==> load_at(loads, c) < load_at(loads, k)
    } else {
        c == 0
    }
}

/// The processors a mask admits.
pub open spec fn mask_admits(mask: u64) -> spec_fn(int) -> bool {
    |k: int| 0 <= k < 64 && mask_allows(mask, k as u32)
}

/// Every processor.
pub open spec fn any_cpu() -> spec_fn(int) -> bool {
    |k: int| true
}

/// One more processor: the running choice moves to processor `m` exactly
/// when it is admitted and its load is below the best so far.
proof fn lemma_choice_step(al: spec_fn(int) -> bool, loads: Seq<usize>, m: int, pc: int, pl: usize)
    requires
        0 <= m,
        least_choice(al, loads, m, pc),
        pl == (if exists|k: int| #[trigger] eligible(al, loads, m, k) { load_at(loads, pc) } else { usize::MAX }),
    ensures
        ({
            let take = al(m) && load_at(loads, m) < pl;
            let c = if take { m } else { pc };
            let l = if take { load_at(loads, m) } else { pl };
            &&& least_choice(al, loads, m + 1, c)
            &&& l == (if exists|k: int| #[trigger] eligible(al, loads, m + 1, k) { load_at(loads, c) } else { usize::MAX })
        }),
{
    let pm = exists|k: int| #[trigger] eligible(al, loads, m, k);
    let take = al(m) && load_at(loads, m) < pl;
    assert forall|k: int| #[trigger] eligible(al, loads, m + 1, k) implies (eligible(al, loads, m, k) || k == m) by {}
    assert forall|k: int| #[trigger] eligible(al, loads, m, k) implies eligible(al, loads, m + 1, k) by {}
    if take {
        assert(eligible(al, loads, m + 1, m));
        assert forall|k: int| #[trigger] eligible(al, loads, m + 1, k) implies load_at(loads, m) <= load_at(loads, k) by {
            if k != m {
                assert(eligible(al, loads, m, k));
            }
        }
        assert forall|k: int| #[trigger] eligible(al, loads, m + 1, k) && k < m implies load_at(loads, m) < load_at(loads, k) by {
            assert(eligible(al, loads, m, k));
        }
    } else if pm {
        assert(eligible(al, loads, m, pc));
        assert(eligible(al, loads, m + 1, pc));
        assert forall|k: int| #[trigger] eligible(al, loads, m + 1, k) implies load_at(loads, pc) <= load_at(loads, k) by {
            if k != m {
                assert(eligible(al, loads, m, k));
            }
        }
        assert forall|k: int| #[trigger] eligible(al, loads, m + 1, k) && k < pc implies load_at(loads, pc) < load_at(loads, k) by {
            assert(eligible(al, loads, m, k));
        }
    } else {
        assert(!eligible(al, loads, m + 1, m));
        assert(!exists|k: int| #[trigger] eligible(al, loads, m + 1, k)) by {
            if exists|k: int| #[trigger] eligible(al, loads, m + 1, k) {
                let k = choose|k: int| #[trigger] eligible(al, loads, m + 1, k);
                if k != m {
                    assert(eligible(al, loads, m, k));
                }
            }
        }
    }
}

/// The running choice over the first `n` admitted processors is the least
/// choice, carrying its load, or `usize::MAX` when none is eligible.
proof fn lemma_best_allowed(mask: u64, loads: Seq<usize>, n: nat)
    requires
        n <= 64,
    ensures
        least_choice(mask_admits(mask), loads, n as int, best_allowed(mask, loads, n).0 as int),
        best_allowed(mask, loads, n).1 == (if exists|k: int| #[trigger] eligible(mask_admits(mask), loads, n as int, k) {
            load_at(loads, best_allowed(mask, loads, n).0 as int)
        } else {
            usize::MAX
        }),
    decreases n,
{
    if n > 0 {
        let m = (n - 1) as nat;
        lemma_best_allowed(mask, loads, m);
        let prev = best_allowed(mask, loads, m);
        lemma_choice_step(mask_admits(mask), loads, m as int, prev.0 as int, prev.1);
        assert((m as u32) as int == m as int);
    } else {
        assert(!exists|k: int| #[trigger] eligible(mask_admits(mask), loads, 0, k));
    }
}

/// The same over every processor of the first `n` loads.
proof fn lemma_least_loaded(loads: Seq<usize>, n: nat)
    requires
        n <= loads.len(),
        loads.len() <= u32::MAX,
    ensures
        least_choice(any_cpu(), loads, n as int, least_loaded(loads, n).0 as int),
        least_loaded(loads, n).1 == (if exists|k: int| #[trigger] eligible(any_cpu(), loads, n as int, k) {
            load_at(loads, least_loaded(loads, n).0 as int)
        } else {
            usize::MAX
        }),
    decreases n,
{
    if n > 0 {
        let m = (n - 1) as nat;
        lemma_least_loaded(loads, m);
        let prev = least_loaded(loads, m);
        assert(load_at(loads, m as int) == loads[m as int]);
        lemma_choice_step(any_cpu(), loads, m as int, prev.0 as int, prev.1);
        assert((m as u32) as int == m as int);
    } else {
        assert(!exists|k: int| #[trigger] eligible(any_cpu(), loads, 0, k));
    }
}

/// The smallest of the first `n > 0` loads.
pub open spec fn min_load(loads: Seq<usize>, n: nat) -> usize
    decreases n,
{
    if n <= 1 {
        loads[0]
    } else {
        let m = min_load(loads, (n - 1) as nat);
        if loads[n - 1] < m { loads[n - 1] } else { m }
    }
}

/// The largest of the first `n > 0` loads.
pub open spec fn max_load(loads: Seq<usize>, n: nat) -> usize
    decreases n,
{
    if n <= 1 {
        loads[0]
    } else {
        let m = max_load(loads, (n - 1) as nat);
        if loads[n - 1] > m { loads[n - 1] } else { m }
    }
}

/// The sum of the first `n` loads.
pub open spec fn sum_load(loads: Seq<usize>, n: nat) -> int
    decreases n,
{
    if n == 0 {
        0
    } else {
        sum_load(loads, (n - 1) as nat) + loads[n - 1]
    }
}

/// The minimum is at most the maximum.
proof fn lemma_min_le_max(loads: Seq<usize>, n: nat)
    requires
        1 <= n <= loads.len(),
    ensures
        min_load(loads, n) <= max_load(loads, n),
    decreases n,
{
    if n > 1 {
        lemma_min_le_max(loads, (n - 1) as nat);
    }
}

/// The smallest of the first `n` loads is at most each of them and is one
/// of them.
pub proof fn lemma_min_load_is_least(loads: Seq<usize>, n: nat)
    requires
        1 <= n <= loads.len(),
    ensures
        forall|i: int| 0 <= i < n ==> min_load(loads, n) <= #[trigger] loads[i],
        exists|i: int| 0 <= i < n && #[trigger] loads[i] == min_load(loads, n),
    decreases n,
{
    if n == 1 {
        assert(loads[0] == min_load(loads, n));
    } else {
        lemma_min_load_is_least(loads, (n - 1) as nat);
        let w = choose|i: int| 0 <= i < n - 1 && #[trigger] loads[i] == min_load(loads, (n - 1) as nat);
        if loads[n - 1] < min_load(loads, (n - 1) as nat) {
            assert(loads[n - 1] == min_load(loads, n));
        } else {
            assert(loads[w] == min_load(loads, n));
        }
    }
}

/// The largest of the first `n` loads is at least each of them and is one
/// of them.
pub proof fn lemma_max_load_is_greatest(loads: Seq<usize>, n: nat)
    requires
        1 <= n <= loads.len(),
    ensures
        forall|i: int| 0 <= i < n ==> #[trigger] loads[i] <= max_load(loads, n),
        exists|i: int| 0 <= i < n && #[trigger] loads[i] == max_load(loads, n),
    decreases n,
{
    if n == 1 {
        assert(loads[0] == max_load(loads, n));
    } else {
        lemma_max_load_is_greatest(loads, (n - 1) as nat);
        let w = choose|i: int| 0 <= i < n - 1 && #[trigger] loads[i] == max_load(loads, (n - 1) as nat);
        if loads[n - 1] > max_load(loads, (n - 1) as nat) {
            assert(loads[n - 1] == max_load(loads, n));
        } else {
            assert(loads[w] == max_load(loads, n));
        }
    }
}

/// Chooses processors for tasks.
#[derive(Debug, Clone, Copy)]
pub struct AffinityManager {
    pub cpu_count: u32,
}

impl AffinityManager {
    /// A manager for `cpu_count` processors.
    pub fn new(cpu_count: u32) -> (m: Self)
        ensures
            m.cpu_count == cpu_count,
    {
        AffinityManager { cpu_count }
    }

    /// The processor for `task`: the least loaded it allows when it is
    /// restricted, else the least loaded of all.
    pub fn select_cpu(&self, task: &Task, cpu_loads: &[usize]) -> (c: CpuId)
        requires
            self.cpu_count <= 64,
            cpu_loads@.len() <= u32::MAX,
        ensures
            task.affinity.0 != 0xFFFF_FFFF_FFFF_FFFFu64 ==> least_choice(mask_admits(task.affinity.0), cpu_loads@, self.cpu_count as int, c.0 as int),
            task.affinity.0 == 0xFFFF_FFFF_FFFF_FFFFu64 ==> least_choice(any_cpu(), cpu_loads@, cpu_loads@.len() as int, c.0 as int),
    {
        if task.affinity.0 != 0xFFFF_FFFF_FFFF_FFFF {
            return self.select_from_affinity(task.affinity.0, cpu_loads);
        }
        self.select_least_loaded(cpu_loads)
    }

    fn select_from_affinity(&self, mask: u64, cpu_loads: &[usize]) -> (c: CpuId)
        requires
            self.cpu_count <= 64,
        ensures
            least_choice(mask_admits(mask), cpu_loads@, self.cpu_count as int, c.0 as int),
    {
        let mut best_cpu: u32 = 0;
        let mut best_load: usize = usize::MAX;
        let mut cpu: u32 = 0;
        while cpu < self.cpu_count
            invariant
                cpu <= self.cpu_count <= 64,
                (best_cpu, best_load) == best_allowed(mask, cpu_loads@, cpu as nat),
            decreases self.cpu_count - cpu,
        {
            if (mask & (1u64 << cpu)) != 0 {
                let load: usize = if (cpu as usize) < cpu_loads.len() { cpu_loads[cpu as usize] } else { 0 };
                if load < best_load {
                    best_load = load;
                    best_cpu = cpu;
                }
            }
            cpu += 1;
        }
        proof {
            lemma_best_allowed(mask, cpu_loads@, self.cpu_count as nat);
        }
        CpuId::new(best_cpu)
    }

    fn select_least_loaded(&self, cpu_loads: &[usize]) -> (c: CpuId)
        requires
            cpu_loads@.len() <= u32::MAX,
        ensures
            least_choice(any_cpu(), cpu_loads@, cpu_loads@.len() as int, c.0 as int),
    {
        let mut best_cpu: u32 = 0;
        let mut best_load: usize = usize::MAX;
        let mut i: usize = 0;
        while i < cpu_loads.len()
            invariant
                i <= cpu_loads@.len() <= u32::MAX,
                (best_cpu, best_load) == least_loaded(cpu_loads@, i as nat),
            decreases cpu_loads@.len() - i,
        {
            let load = cpu_loads[i];
            if load < best_load {
                best_load = load;
                best_cpu = i as u32;
            }
            i += 1;
        }
        proof {
            lemma_least_loaded(cpu_loads@, cpu_loads@.len());
        }
        CpuId::new(best_cpu)
    }

    /// Two or more processors whose loads differ by more than 2.
    pub fn needs_rebalancing(&self, cpu_loads: &[usize]) -> (b: bool)
        ensures
            b == (cpu_loads@.len() >= 2 && max_load(cpu_loads@, cpu_loads@.len()) - min_load(cpu_loads@, cpu_loads@.len()) > 2),
            b == exists|i: int, j: int| 0 <= i < cpu_loads@.len() && 0 <= j < cpu_loads@.len()
                && #[trigger] cpu_loads@[i] - #[trigger] cpu_loads@[j] > 2,
    {
        if cpu_loads.len() < 2 {
            proof {
                assert forall|i: int, j: int| 0 <= i < cpu_loads@.len() && 0 <= j < cpu_loads@.len()
                    implies !(#[trigger] cpu_loads@[i] - #[trigger] cpu_loads@[j] > 2) by {
                    assert(i == j);
                }
            }
            return false;
        }
        proof {
            let n = cpu_loads@.len();
            lemma_min_load_is_least(cpu_loads@, n);
            lemma_max_load_is_greatest(cpu_loads@, n);
            let lo = choose|i: int| 0 <= i < n && #[trigger] cpu_loads@[i] == min_load(cpu_loads@, n);
            let hi = choose|i: int| 0 <= i < n && #[trigger] cpu_loads@[i] == max_load(cpu_loads@, n);
            assert(cpu_loads@[hi] - cpu_loads@[lo] == max_load(cpu_loads@, n) - min_load(cpu_loads@, n));
        }
        let min = min_of(cpu_loads);
        let max = max_of(cpu_loads);
        proof {
            lemma_min_le_max(cpu_loads@, cpu_loads@.len());
        }
        max - min > 2
    }

    /// How far the busiest processor is above the average load.
    pub fn imbalance_factor(&self, cpu_loads: &[usize]) -> (f: usize)
        requires
            sum_load(cpu_loads@, cpu_loads@.len()) <= usize::MAX,
        ensures
            cpu_loads@.len() == 0 ==> f == 0,
            cpu_loads@.len() > 0 ==> {
                let avg = sum_load(cpu_loads@, cpu_loads@.len()) / (cpu_loads@.len() as int);
                let max = max_load(cpu_loads@, cpu_loads@.len());
                f == (if max > avg { max - avg } else { 0 })
            },
    {
        if cpu_loads.len() == 0 {
            return 0;
        }
        let mut total: usize = 0;
        let mut i: usize = 0;
        while i < cpu_loads.len()
            invariant
                i <= cpu_loads@.len(),
                total == sum_load(cpu_loads@, i as nat),
                sum_load(cpu_loads@, cpu_loads@.len()) <= usize::MAX,
            decreases cpu_loads@.len() - i,
        {
            proof {
                lemma_sum_prefix(cpu_loads@, (i + 1) as nat, cpu_loads@.len());
            }
            total = total + cpu_loads[i];
            i += 1;
        }
        let avg = total / cpu_loads.len();
        let max = max_of(cpu_loads);
        if max > avg {
            max - avg
        } else {
            0
        }
    }
}

/// A longer prefix sums to at least as much.
proof fn lemma_sum_prefix(loads: Seq<usize>, a: nat, b: nat)
    requires
        a <= b <= loads.len(),
    ensures
        sum_load(loads, a) <= sum_load(loads, b),
    decreases b - a,
{
    if a < b {
        lemma_sum_prefix(loads, a, (b - 1) as nat);
    }
}

/// The smallest load.
fn min_of(loads: &[usize]) -> (m: usize)
    requires
        loads@.len() >= 1,
    ensures
        m == min_load(loads@, loads@.len()),
{
    let mut m = loads[0];
    let mut i: usize = 1;
    while i < loads.len()
        invariant
            1 <= i <= loads@.len(),
            m == min_load(loads@, i as nat),
        decreases loads@.len() - i,
    {
        if loads[i] < m {
            m = loads[i];
        }
        i += 1;
    }
    m
}

/// The largest load.
fn max_of(loads: &[usize]) -> (m: usize)
    requires
        loads@.len() >= 1,
    ensures
        m == max_load(loads@, loads@.len()),
{
    let mut m = loads[0];
    let mut i: usize = 1;
    while i < loads.len()
        invariant
            1 <= i <= loads@.len(),
            m == max_load(loads@, i as nat),
        decreases loads@.len() - i,
    {
        if loads[i] > m {
            m = loads[i];
        }
        i += 1;
    }
    m
}

impl Default for AffinityManager {
    fn default() -> (m: Self)
        ensures
            m.cpu_count == 1,
    {
        AffinityManager::new(1)
    }
}

/// How processors are arranged.
#[derive(Debug, Clone)]
pub struct CpuTopology {
    pub physical_cores: u32,
    pub logical_cores: u32,
    pub numa_nodes: u32,
    /// The NUMA node of each of the first eight processors.
    pub cpu_to_numa: Vec<u32>,
}

impl CpuTopology {
    /// A symmetric machine of `cores` processors on one node.
    pub fn smp(cores: u32) -> (t: Self)
        ensures
            t.physical_cores == cores,
            t.logical_cores == cores,
            t.numa_nodes == 1,
            t.cpu_to_numa@ == seq![0u32, 0, 0, 0, 0, 0, 0, 0],
    {
        let mut m: Vec<u32> = Vec::new();
        let mut i: usize = 0;
        while i < 8
            invariant
                i <= 8,
                m@.len() == i,
                forall|k: int| 0 <= k < i ==> #[trigger] m@[k] == 0,
            decreases 8 - i,
        {
            m.push(0);
            i += 1;
        }
        assert(m@ =~= seq![0u32, 0, 0, 0, 0, 0, 0, 0]);
        CpuTopology { physical_cores: cores, logical_cores: cores, numa_nodes: 1, cpu_to_numa: m }
    }

    /// Two processors share a cache only when they are the same.
    pub fn share_cache(&self, cpu1: u32, cpu2: u32) -> (b: bool)
        ensures
            b == (cpu1 == cpu2),
    {
        cpu1 == cpu2
    }

    /// The NUMA node of `cpu`; 0 beyond the first eight.
    pub fn numa_node(&self, cpu: u32) -> (n: u32)
        requires
            self.cpu_to_numa@.len() == 8,
        ensures
            n == (if cpu < 8 { self.cpu_to_numa@[cpu as int] } else { 0 }),
    {
        if cpu < 8 {
            self.cpu_to_numa[cpu as usize]
        } else {
            0
        }
    }
}

} // verus!
