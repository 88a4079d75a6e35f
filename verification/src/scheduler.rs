//! Scheduling: tasks, the feedback runqueue, processor affinity, idle
//! accounting and the preemptive round-robin task table.
//!
//! The scheduler keeps a table of 64 task slots. On each timer tick it
//! picks the next ready task after the current one, preferring tasks that
//! are not idle, and says whether and where to switch; the register switch
//! itself is done by the caller.

pub mod task;
pub mod runqueue;
pub mod affinity;
pub mod idle;
pub mod context;

use crate::ids::IdCounter;
use crate::scheduler::task::{kernel_stack_top, Priority, Task, TaskId, TaskState};
use vstd::prelude::*;

verus! {

/// The default time slice, in nanoseconds (10 ms).
pub const DEFAULT_TIME_SLICE_NS: u64 = 10_000_000;
/// Slots in the task table.
pub const MAX_TASKS: usize = 64;

/// Tasks among the first `n` slots.
pub open spec fn count_tasks(slots: Seq<Option<Task>>, n: nat) -> nat
    decreases n,
{
    if n == 0 {
        0
    } else {
        count_tasks(slots, (n - 1) as nat) + (if slots[n - 1] is Some { 1nat } else { 0nat })
    }
}

/// The first free slot at index `i` or later; 64 if none.
pub open spec fn first_free_slot(slots: Seq<Option<Task>>, i: int) -> int
    decreases 64 - i,
{
    if i >= 64 || i < 0 {
        64
    } else if slots[i] is None {
        i
    } else {
        first_free_slot(slots, i + 1)
    }
}

/// The slot holds a ready task, and, when `busy_only`, one whose priority
/// is not idle.
pub open spec fn pickable(slot: Option<Task>, busy_only: bool) -> bool {
    match slot {
        Some(t) => t.state == TaskState::Ready && (!busy_only || t.priority.0 < 250),
        None => false,
    }
}

/// The first step `k` or later of a round after `start` whose slot
/// `(start + k + 1) % 64` is pickable; 64 if none.
pub open spec fn pick_step(slots: Seq<Option<Task>>, start: int, k: int, busy_only: bool) -> int
    decreases 64 - k,
{
    if k >= 64 || k < 0 {
        64
    } else if pickable(slots[(start + k + 1) % 64], busy_only) {
        k
    } else {
        pick_step(slots, start, k + 1, busy_only)
    }
}

/// Setting one slot changes the count by what it held and now holds.
proof fn lemma_count_update(slots: Seq<Option<Task>>, i: int, v: Option<Task>, n: nat)
    requires
        0 <= i < slots.len(),
        n <= slots.len(),
    ensures
        count_tasks(slots.update(i, v), n) + (if i < n && slots[i] is Some { 1int } else { 0int })
            == count_tasks(slots, n) + (if i < n && v is Some { 1int } else { 0int }),
    decreases n,
{
    if n > 0 {
        lemma_count_update(slots, i, v, (n - 1) as nat);
    }
}

/// Fewer tasks than slots leaves a free slot.
proof fn lemma_free_slot_exists(slots: Seq<Option<Task>>, n: nat)
    requires
        n <= slots.len(),
        count_tasks(slots, n) < n,
    ensures
        exists|i: int| 0 <= i < n && #[trigger] slots[i] is None,
    decreases n,
{
    if slots[n - 1] is None {
        assert(slots[n - 1] is None);
    } else {
        lemma_free_slot_exists(slots, (n - 1) as nat);
    }
}

/// A free slot at or after `i` makes `first_free_slot` find one.
proof fn lemma_first_free_found(slots: Seq<Option<Task>>, i: int, j: int)
    requires
        0 <= i <= j < 64,
        slots[j] is None,
    ensures
        first_free_slot(slots, i) <= j,
    decreases j - i,
{
    if i < j && slots[i] is Some {
        lemma_first_free_found(slots, i + 1, j);
    }
}

/// The first free slot from `i` on lies between `i` and 64.
proof fn lemma_first_free_range(slots: Seq<Option<Task>>, i: int)
    requires
        0 <= i,
    ensures
        i <= first_free_slot(slots, i) <= 64 || i > 64,
    decreases 64 - i,
{
    if i < 64 && slots[i] is Some {
        lemma_first_free_range(slots, i + 1);
    }
}

/// The table of tasks, scanned round-robin from the current slot.
pub struct TaskTable {
    pub slots: Vec<Option<Task>>,
    pub len: usize,
    pub current: usize,
}

impl TaskTable {
    /// 64 slots, the current slot in range, and `len` counting the tasks.
    pub open spec fn wf(&self) -> bool {
        &&& self.slots@.len() == MAX_TASKS
        &&& self.current < MAX_TASKS
        &&& self.len == count_tasks(self.slots@, 64)
    }

    /// An empty table.
    pub fn new() -> (t: Self)
        ensures
            t.wf(),
            t.len == 0,
            t.current == 0,
            forall|i: int| 0 <= i < 64 ==> #[trigger] t.slots@[i] is None,
    {
        let mut slots: Vec<Option<Task>> = Vec::new();
        while slots.len() < MAX_TASKS
            invariant
                slots@.len() <= 64,
                forall|i: int| 0 <= i < slots@.len() ==> #[trigger] slots@[i] is None,
                count_tasks(slots@, slots@.len()) == 0,
            decreases 64 - slots@.len(),
        {
            let ghost before = slots@;
            slots.push(None);
            proof {
                lemma_count_prefix_push(before, None, before.len());
            }
        }
        TaskTable { slots, len: 0, current: 0 }
    }

    /// Put `task` in the first free slot, giving its index; nothing when
    /// the table is full.
    pub fn add(&mut self, task: Task) -> (r: Option<usize>)
        requires
            old(self).wf(),
        ensures
            final(self).wf(),
            final(self).current == old(self).current,
            ({
                let i = first_free_slot(old(self).slots@, 0);
                if i < 64 {
                    &&& r == Some(i as usize)
                    &&& final(self).slots@ == old(self).slots@.update(i, Some(task))
                    &&& final(self).len == old(self).len + 1
                } else {
                    &&& r is None
                    &&& final(self).slots@ == old(self).slots@
                    &&& final(self).len == old(self).len
                }
            }),
    {
        let mut i: usize = 0;
        while i < MAX_TASKS
            invariant
                *self == *old(self),
                self.wf(),
                i <= 64,
                first_free_slot(self.slots@, 0) == first_free_slot(self.slots@, i as int),
            decreases 64 - i,
        {
            if self.slots[i].is_none() {
                let ghost before = self.slots@;
                self.slots.set(i, Some(task));
                proof {
                    lemma_count_update(before, i as int, Some(task), 64);
                    lemma_count_bound(before, 64);
                }
                self.len = self.len + 1;
                return Some(i);
            }
            i += 1;
        }
        None
    }

    /// The next slot to run, round-robin after the current one: the first
    /// ready task that is not idle, else the first ready task; it becomes
    /// current. Nothing when the table is empty or nothing is ready.
    pub fn next_ready(&mut self) -> (r: Option<usize>)
        requires
            old(self).wf(),
        ensures
            final(self).wf(),
            final(self).slots == old(self).slots,
            final(self).len == old(self).len,
            ({
                let s = old(self).slots@;
                let start = old(self).current as int;
                let k1 = pick_step(s, start, 0, true);
                let k2 = pick_step(s, start, 0, false);
                if old(self).len == 0 {
                    r is None && final(self).current == old(self).current
                } else if k1 < 64 {
                    r == Some(((start + k1 + 1) % 64) as usize) && final(self).current == (start + k1 + 1) % 64
                } else if k2 < 64 {
                    r == Some(((start + k2 + 1) % 64) as usize) && final(self).current == (start + k2 + 1) % 64
                } else {
                    r is None && final(self).current == old(self).current
                }
            }),
    {
        if self.len == 0 {
            return None;
        }
        let start = self.current;
        match self.scan(start, true) {
            Some(idx) => {
                self.current = idx;
                return Some(idx);
            },
            None => {},
        }
        match self.scan(start, false) {
            Some(idx) => {
                self.current = idx;
                Some(idx)
            },
            None => None,
        }
    }

    /// The first pickable slot of a round after `start`.
    fn scan(&self, start: usize, busy_only: bool) -> (r: Option<usize>)
        requires
            self.wf(),
            start < 64,
        ensures
            ({
                let k = pick_step(self.slots@, start as int, 0, busy_only);
                if k < 64 { r == Some(((start + k + 1) % 64) as usize) } else { r is None }
            }),
    {
        let mut k: usize = 0;
        while k < MAX_TASKS
            invariant
                self.wf(),
                start < 64,
                k <= 64,
                pick_step(self.slots@, start as int, 0, busy_only) == pick_step(self.slots@, start as int, k as int, busy_only),
            decreases 64 - k,
        {
            let idx = (start + k + 1) % MAX_TASKS;
            let ok = match &self.slots[idx] {
                Some(t) => t.is_ready() && (!busy_only || !t.priority.is_idle()),
                None => false,
            };
            if ok {
                return Some(idx);
            }
            k += 1;
        }
        None
    }
}

/// The tasks among `n` slots number at most `n`.
proof fn lemma_count_bound(slots: Seq<Option<Task>>, n: nat)
    requires
        n <= slots.len(),
    ensures
        count_tasks(slots, n) <= n,
    decreases n,
{
    if n > 0 {
        lemma_count_bound(slots, (n - 1) as nat);
    }
}

/// Appending a slot leaves the count of the earlier slots alone.
proof fn lemma_count_prefix_push(slots: Seq<Option<Task>>, v: Option<Task>, n: nat)
    requires
        n <= slots.len(),
    ensures
        count_tasks(slots.push(v), n) == count_tasks(slots, n),
        count_tasks(slots.push(v), slots.len() + 1) == count_tasks(slots, slots.len()) + (if v is Some { 1nat } else { 0nat }),
    decreases n,
{
    if n > 0 {
        lemma_count_prefix_push(slots, v, (n - 1) as nat);
    }
    lemma_count_prefix_push_all(slots, v, slots.len());
}

proof fn lemma_count_prefix_push_all(slots: Seq<Option<Task>>, v: Option<Task>, n: nat)
    requires
        n <= slots.len(),
    ensures
        count_tasks(slots.push(v), n) == count_tasks(slots, n),
    decreases n,
{
    if n > 0 {
        lemma_count_prefix_push_all(slots, v, (n - 1) as nat);
    }
}

/// Scheduler settings.
#[derive(Debug, Clone, Copy)]
pub struct SchedulerConfig {
    pub cpu_count: usize,
    pub time_slice_ns: u64,
}

impl Default for SchedulerConfig {
    fn default() -> (c: Self)
        ensures
            c.cpu_count == 1,
            c.time_slice_ns == DEFAULT_TIME_SLICE_NS,
    {
        SchedulerConfig { cpu_count: 1, time_slice_ns: DEFAULT_TIME_SLICE_NS }
    }
}

/// Extended scheduler settings.
#[derive(Debug, Clone, Copy)]
pub struct SchedulerConfig2 {
    pub cpu_count: usize,
    pub load_balancing: bool,
    pub priority_boost: bool,
    pub time_slice_ns: u64,
    pub rt_reserve_percent: u8,
}

/// What a timer tick asks of the caller.
#[derive(Debug, Clone, Copy, PartialEq, Eq, Structural)]
pub enum SwitchDecision {
    /// Keep running the current task.
    Stay,
    /// Save the current stack pointer into slot `from` (or discard it when
    /// coming from the boot path) and continue on `next_rsp`, the stack of
    /// slot `to`.
    Switch { from: Option<usize>, to: usize, next_rsp: u64 },
}

/// What a tick decided, relating the scheduler before and after: staying
/// keeps the running slot; switching leaves the running slot for a
/// different ready task, made current, whose saved stack is resumed.
pub open spec fn switch_decided(before: Scheduler, after: Scheduler, d: SwitchDecision) -> bool {
    match d {
        SwitchDecision::Stay => after.current_idx == before.current_idx,
        SwitchDecision::Switch { from, to, next_rsp } => {
            &&& from == before.current_idx
            &&& Some(to) != before.current_idx
            &&& after.current_idx == Some(to)
            &&& after.table.current == to
            &&& before.table.slots@[to as int] matches Some(t) && t.kernel_stack == next_rsp && t.state == TaskState::Ready
            &&& (from matches Some(f) ==> before.table.slots@[f as int] is Some)
        },
    }
}

/// The scheduler: its settings, the task table, the tick count, the
/// running and idle slots, and the source of task identifiers.
pub struct Scheduler {
    pub config: SchedulerConfig,
    pub table: TaskTable,
    pub ticks: usize,
    pub current_idx: Option<usize>,
    pub idle_idx: Option<usize>,
    pub task_ids: IdCounter,
}

impl Scheduler {
    /// The table is well formed, the running and idle slots are in range,
    /// and identifiers drawn so far are at most the tasks in the table.
    pub open spec fn wf(&self) -> bool {
        &&& self.table.wf()
        &&& (self.current_idx matches Some(c) ==> c < MAX_TASKS)
        &&& (self.idle_idx matches Some(i) ==> i < MAX_TASKS)
        &&& 1 <= self.task_ids.peek() <= self.table.len + 1
    }

    /// A scheduler with an empty table.
    pub fn new(config: SchedulerConfig) -> (s: Self)
        ensures
            s.wf(),
            s.config == config,
            s.table.len == 0,
            s.ticks == 0,
            s.current_idx is None,
            s.idle_idx is None,
            s.task_ids.peek() == 1,
            forall|i: int| 0 <= i < 64 ==> #[trigger] s.table.slots@[i] is None,
            s.table.current == 0,
    {
        Scheduler { config, table: TaskTable::new(), ticks: 0, current_idx: None, idle_idx: None, task_ids: IdCounter::new() }
    }

    /// A scheduler with the default settings.
    pub fn init() -> (s: Self)
        ensures
            s.wf(),
            s.config.cpu_count == 1,
            s.config.time_slice_ns == DEFAULT_TIME_SLICE_NS,
            s.table.len == 0,
            s.ticks == 0,
            s.current_idx is None,
            s.idle_idx is None,
            s.task_ids.peek() == 1,
            forall|i: int| 0 <= i < 64 ==> #[trigger] s.table.slots@[i] is None,
            s.table.current == 0,
    {
        Scheduler::new(SchedulerConfig::default())
    }

    /// Add a ready kernel task starting at `entry`, created at `now`, to
    /// the first free slot; gives its identifier.
    pub fn spawn_kernel(&mut self, entry: u64, priority: Priority, now: u64) -> (id: TaskId)
        requires
            old(self).wf(),
            old(self).table.len < MAX_TASKS,
        ensures
            final(self).wf(),
            id.0 == old(self).task_ids.peek(),
            final(self).table.len == old(self).table.len + 1,
            final(self).current_idx == old(self).current_idx,
            final(self).idle_idx == old(self).idle_idx,
            final(self).ticks == old(self).ticks,
            ({
                let i = first_free_slot(old(self).table.slots@, 0);
                let t = final(self).table.slots@[i]->0;
                &&& i < 64
                &&& final(self).table.slots@[i] is Some
                &&& t.id == id && t.priority == priority && t.rip == entry && t.state == TaskState::Ready
                &&& t.kernel_stack == kernel_stack_top(id.0) && t.stats.created_at == now
                &&& final(self).table.slots@ == old(self).table.slots@.update(i, final(self).table.slots@[i])
            }),
    {
        proof {
            lemma_free_slot_exists(self.table.slots@, 64);
            let j = choose|j: int| 0 <= j < 64 && #[trigger] self.table.slots@[j] is None;
            lemma_first_free_found(self.table.slots@, 0, j);
            lemma_first_free_range(self.table.slots@, 0);
        }
        let task = Task::new_kernel(&mut self.task_ids, entry, priority, now);
        let id = task.id;
        let _ = self.table.add(task);
        id
    }

    /// Add the idle task (running the loop at `idle_entry`) to the first
    /// free slot and record that slot; gives its identifier, 0.
    pub fn register_idle(&mut self, idle_entry: u64) -> (id: TaskId)
        requires
            old(self).wf(),
            old(self).table.len < MAX_TASKS,
        ensures
            final(self).wf(),
            id.0 == 0,
            final(self).table.len == old(self).table.len + 1,
            final(self).idle_idx == Some(first_free_slot(old(self).table.slots@, 0) as usize),
            final(self).current_idx == old(self).current_idx,
            final(self).task_ids == old(self).task_ids,
            ({
                let i = first_free_slot(old(self).table.slots@, 0);
                &&& i < 64
                &&& final(self).table.slots@ == old(self).table.slots@.update(i, Some(Task::new_idle_spec(idle_entry)))
            }),
    {
        proof {
            lemma_free_slot_exists(self.table.slots@, 64);
            let j = choose|j: int| 0 <= j < 64 && #[trigger] self.table.slots@[j] is None;
            lemma_first_free_found(self.table.slots@, 0, j);
            lemma_first_free_range(self.table.slots@, 0);
        }
        let task = Task::new_idle(idle_entry);
        let id = task.id;
        let idx = self.table.add(task);
        self.idle_idx = idx;
        id
    }

    /// The number of tasks.
    pub fn task_count(&self) -> (n: usize)
        ensures
            n == self.table.len,
    {
        self.table.len
    }

    /// One timer tick: count it, pick the next task, and say whether to
    /// switch to it.
    pub fn tick(&mut self) -> (d: SwitchDecision)
        requires
            old(self).wf(),
        ensures
            final(self).wf(),
            final(self).ticks == vstd::wrapping::usize_specs::wrapping_add(old(self).ticks, 1),
            final(self).table.slots == old(self).table.slots,
            final(self).table.len == old(self).table.len,
            final(self).idle_idx == old(self).idle_idx,
            final(self).task_ids == old(self).task_ids,
            switch_decided(*old(self), *final(self), d),
    {
        self.ticks = self.ticks.wrapping_add(1);
        let next_idx = match self.table.next_ready() {
            Some(i) => i,
            None => return SwitchDecision::Stay,
        };
        proof {
            lemma_pick_found(old(self).table.slots@, old(self).table.current as int, true);
            lemma_pick_found(old(self).table.slots@, old(self).table.current as int, false);
        }
        if self.current_idx == Some(next_idx) {
            return SwitchDecision::Stay;
        }
        let next_rsp = match &self.table.slots[next_idx] {
            Some(t) => t.kernel_stack,
            None => return SwitchDecision::Stay,
        };
        let from = match self.current_idx {
            None => None,
            Some(c) => {
                if self.table.slots[c].is_none() {
                    return SwitchDecision::Stay;
                }
                Some(c)
            },
        };
        self.current_idx = Some(next_idx);
        SwitchDecision::Switch { from, to: next_idx, next_rsp }
    }

    /// Record the stack pointer a switched-out task was saved with.
    pub fn save_stack(&mut self, idx: usize, rsp: u64)
        requires
            old(self).wf(),
            idx < MAX_TASKS,
        ensures
            final(self).wf(),
            final(self).ticks == old(self).ticks,
            final(self).current_idx == old(self).current_idx,
            final(self).idle_idx == old(self).idle_idx,
            final(self).table.len == old(self).table.len,
            final(self).table.current == old(self).table.current,
            match old(self).table.slots@[idx as int] {
                Some(t) => final(self).table.slots@ == old(self).table.slots@.update(idx as int, Some(Task { kernel_stack: rsp, ..t })),
                None => final(self).table.slots@ == old(self).table.slots@,
            },
    {
        match self.table.slots[idx] {
            Some(t) => {
                let ghost before = self.table.slots@;
                let mut t2 = t;
                t2.kernel_stack = rsp;
                self.table.slots.set(idx, Some(t2));
                proof {
                    lemma_count_update(before, idx as int, Some(t2), 64);
                }
            },
            None => {},
        }
    }

    /// Make the idle task current.
    pub fn enter_idle(&mut self)
        requires
            old(self).wf(),
        ensures
            final(self).wf(),
            final(self).current_idx == old(self).idle_idx,
            final(self).table == old(self).table,
            final(self).ticks == old(self).ticks,
            final(self).idle_idx == old(self).idle_idx,
    {
        self.current_idx = self.idle_idx;
    }

    /// Make the idle task current and give the stack to continue on: the
    /// idle task's, or 0 when its slot is empty.
    pub fn switch_to_idle(&mut self) -> (rsp: u64)
        requires
            old(self).wf(),
            old(self).idle_idx is Some,
        ensures
            final(self).wf(),
            final(self).current_idx == old(self).idle_idx,
            final(self).table == old(self).table,
            rsp == (match old(self).table.slots@[old(self).idle_idx->0 as int] {
                Some(t) => t.kernel_stack,
                None => 0,
            }),
    {
        let idle = match self.idle_idx {
            Some(i) => i,
            None => 0,
        };
        let rsp = match &self.table.slots[idle] {
            Some(t) => t.kernel_stack,
            None => 0,
        };
        self.current_idx = Some(idle);
        rsp
    }

    /// Ticks counted so far.
    pub fn tick_count(&self) -> (n: usize)
        ensures
            n == self.ticks,
    {
        self.ticks
    }

    /// The identifier of the running task, if any.
    pub fn current_task_id(&self) -> (r: Option<TaskId>)
        requires
            self.wf(),
        ensures
            r == (match self.current_idx {
                None => None::<TaskId>,
                Some(i) => match self.table.slots@[i as int] {
                    Some(t) => Some(t.id),
                    None => None::<TaskId>,
                },
            }),
    {
        match self.current_idx {
            None => None,
            Some(i) => match &self.table.slots[i] {
                Some(t) => Some(t.id),
                None => None,
            },
        }
    }
}

impl Task {
    /// The idle task `new_idle` builds.
    pub open spec fn new_idle_spec(idle_entry: u64) -> Task {
        Task {
            id: TaskId(0),
            state: TaskState::Ready,
            priority: Priority(255),
            cpu: crate::scheduler::task::CpuId(0),
            affinity: crate::scheduler::task::CpuAffinity(0xFFFF_FFFF_FFFF_FFFF),
            time_slice: u64::MAX,
            kernel_stack: 0,
            user_stack: None,
            context: crate::scheduler::task::TaskContext { r15: 0, r14: 0, r13: 0, r12: 0, rbp: 0, rbx: 0, rflags: 0x202 },
            rip: idle_entry,
            address_space: 0,
            wakeup_time: None,
            stats: crate::scheduler::task::TaskStats { cpu_time: 0, context_switches: 0, created_at: 0, started_at: None },
            entry_point: idle_entry,
        }
    }
}

/// A step found by `pick_step` names a pickable slot.
proof fn lemma_pick_found(slots: Seq<Option<Task>>, start: int, busy_only: bool)
    ensures
        pick_step(slots, start, 0, busy_only) < 64 ==> pickable(slots[(start + pick_step(slots, start, 0, busy_only) + 1) % 64], busy_only),
{
    lemma_pick_found_from(slots, start, 0, busy_only);
}

proof fn lemma_pick_found_from(slots: Seq<Option<Task>>, start: int, k: int, busy_only: bool)
    ensures
        pick_step(slots, start, k, busy_only) < 64 ==> pickable(slots[(start + pick_step(slots, start, k, busy_only) + 1) % 64], busy_only),
    decreases 64 - k,
{
    if 0 <= k < 64 && !pickable(slots[(start + k + 1) % 64], busy_only) {
        lemma_pick_found_from(slots, start, k + 1, busy_only);
    }
}

/// Round robin skips no task: the slot picked after `start` is the first
/// pickable one in cyclic order, so every slot before it in that order is
/// passed over only because it cannot run; with nothing picked, no slot
/// can run.
pub proof fn lemma_round_robin(slots: Seq<Option<Task>>, start: int, busy_only: bool)
    ensures
        ({
            let k = pick_step(slots, start, 0, busy_only);
            &&& 0 <= k <= 64
            &&& k < 64 ==> pickable(slots[(start + k + 1) % 64], busy_only)
            &&& forall|j: int| 0 <= j < k ==> !pickable(#[trigger] slots[(start + j + 1) % 64], busy_only)
        }),
{
    lemma_pick_found(slots, start, busy_only);
    lemma_pick_skips(slots, start, 0, busy_only);
}

proof fn lemma_pick_skips(slots: Seq<Option<Task>>, start: int, k: int, busy_only: bool)
    requires
        0 <= k <= 64,
    ensures
        k <= pick_step(slots, start, k, busy_only) <= 64,
        forall|j: int| k <= j < pick_step(slots, start, k, busy_only) ==> !pickable(#[trigger] slots[(start + j + 1) % 64], busy_only),
    decreases 64 - k,
{
    if k < 64 && !pickable(slots[(start + k + 1) % 64], busy_only) {
        lemma_pick_skips(slots, start, k + 1, busy_only);
    }
}

/// A scheduler with the default settings.
pub fn init() -> (s: Scheduler)
    ensures
        s.wf(),
        s.config.cpu_count == 1,
        s.config.time_slice_ns == DEFAULT_TIME_SLICE_NS,
        s.table.len == 0,
        s.ticks == 0,
        s.current_idx is None,
        s.idle_idx is None,
        s.task_ids.peek() == 1,
        forall|i: int| 0 <= i < 64 ==> #[trigger] s.table.slots@[i] is None,
        s.table.current == 0,
{
    Scheduler::init()
}

/// Add a kernel task (see `Scheduler::spawn_kernel`); `name` labels it in
/// the kernel log.
pub fn spawn_kernel_task(sched: &mut Scheduler, name: &str, entry: u64, priority: Priority, now: u64) -> (id: TaskId)
    requires
        old(sched).wf(),
        old(sched).table.len < MAX_TASKS,
    ensures
        final(sched).wf(),
        id.0 == old(sched).task_ids.peek(),
        final(sched).table.len == old(sched).table.len + 1,
        final(sched).current_idx == old(sched).current_idx,
        final(sched).idle_idx == old(sched).idle_idx,
        final(sched).ticks == old(sched).ticks,
        ({
            let i = first_free_slot(old(sched).table.slots@, 0);
            let t = final(sched).table.slots@[i]->0;
            &&& i < 64
            &&& final(sched).table.slots@[i] is Some
            &&& t.id == id && t.priority == priority && t.rip == entry && t.state == TaskState::Ready
            &&& t.kernel_stack == kernel_stack_top(id.0) && t.stats.created_at == now
            &&& final(sched).table.slots@ == old(sched).table.slots@.update(i, final(sched).table.slots@[i])
        }),
{
    sched.spawn_kernel(entry, priority, now)
}

/// Add the idle task (see `Scheduler::register_idle`).
pub fn register_idle_task(sched: &mut Scheduler, idle_entry: u64) -> (id: TaskId)
    requires
        old(sched).wf(),
        old(sched).table.len < MAX_TASKS,
    ensures
        final(sched).wf(),
        id.0 == 0,
        final(sched).idle_idx == Some(first_free_slot(old(sched).table.slots@, 0) as usize),
        final(sched).table.len == old(sched).table.len + 1,
        final(sched).current_idx == old(sched).current_idx,
        final(sched).task_ids == old(sched).task_ids,
        ({
            let i = first_free_slot(old(sched).table.slots@, 0);
            &&& i < 64
            &&& final(sched).table.slots@ == old(sched).table.slots@.update(i, Some(Task::new_idle_spec(idle_entry)))
        }),
{
    sched.register_idle(idle_entry)
}

/// Create the first process: the idle task.
pub fn create_init_process(sched: &mut Scheduler, idle_entry: u64) -> (id: TaskId)
    requires
        old(sched).wf(),
        old(sched).table.len < MAX_TASKS,
    ensures
        final(sched).wf(),
        id.0 == 0,
        final(sched).idle_idx == Some(first_free_slot(old(sched).table.slots@, 0) as usize),
        final(sched).table.len == old(sched).table.len + 1,
        final(sched).current_idx == old(sched).current_idx,
        final(sched).task_ids == old(sched).task_ids,
        ({
            let i = first_free_slot(old(sched).table.slots@, 0);
            &&& i < 64
            &&& final(sched).table.slots@ == old(sched).table.slots@.update(i, Some(Task::new_idle_spec(idle_entry)))
        }),
{
    register_idle_task(sched, idle_entry)
}

/// Make the idle task current before idling with interrupts on.
pub fn enter_idle(sched: &mut Scheduler)
    requires
        old(sched).wf(),
    ensures
        final(sched).wf(),
        final(sched).current_idx == old(sched).idle_idx,
        final(sched).table == old(sched).table,
        final(sched).ticks == old(sched).ticks,
        final(sched).idle_idx == old(sched).idle_idx,
{
    sched.enter_idle()
}

/// Start scheduling: enter idle.
pub fn start(sched: &mut Scheduler)
    requires
        old(sched).wf(),
    ensures
        final(sched).wf(),
        final(sched).current_idx == old(sched).idle_idx,
        final(sched).table == old(sched).table,
        final(sched).ticks == old(sched).ticks,
        final(sched).idle_idx == old(sched).idle_idx,
{
    enter_idle(sched)
}

/// One timer tick (see `Scheduler::tick`).
pub fn tick(sched: &mut Scheduler) -> (d: SwitchDecision)
    requires
        old(sched).wf(),
    ensures
        final(sched).wf(),
        final(sched).ticks == vstd::wrapping::usize_specs::wrapping_add(old(sched).ticks, 1),
        final(sched).table.slots == old(sched).table.slots,
        final(sched).table.len == old(sched).table.len,
        final(sched).idle_idx == old(sched).idle_idx,
        switch_decided(*old(sched), *final(sched), d),
{
    sched.tick()
}

/// Switch to the idle task (see `Scheduler::switch_to_idle`).
pub fn switch_to_idle(sched: &mut Scheduler) -> (rsp: u64)
    requires
        old(sched).wf(),
        old(sched).idle_idx is Some,
    ensures
        final(sched).wf(),
        final(sched).current_idx == old(sched).idle_idx,
        final(sched).table == old(sched).table,
        rsp == (match old(sched).table.slots@[old(sched).idle_idx->0 as int] {
            Some(t) => t.kernel_stack,
            None => 0,
        }),
{
    sched.switch_to_idle()
}

/// Ticks counted so far.
pub fn tick_count(sched: &Scheduler) -> (n: usize)
    ensures
        n == sched.ticks,
{
    sched.tick_count()
}

/// The identifier of the running task, if any.
pub fn current_task_id(sched: &Scheduler) -> (r: Option<TaskId>)
    requires
        sched.wf(),
    ensures
        r == (match sched.current_idx {
            None => None::<TaskId>,
            Some(i) => match sched.table.slots@[i as int] {
                Some(t) => Some(t.id),
                None => None::<TaskId>,
            },
        }),
{
    sched.current_task_id()
}

} // verus!
