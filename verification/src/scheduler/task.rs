//! Tasks: identifiers, priorities, states, affinity and saved context.

use crate::ids::IdCounter;
use vstd::prelude::*;

verus! {

/// Base of the kernel stacks handed to kernel tasks.
pub const KERNEL_STACK_BASE: u64 = 0xFFFF_8000_0000_0000;
/// Bytes of each kernel task's stack.
pub const KERNEL_STACK_SIZE: u64 = 8192;
/// The time slice a kernel task starts with, in nanoseconds.
pub const DEFAULT_TASK_SLICE_NS: u64 = 10_000_000;
/// Flags register of a fresh context: interrupts enabled.
pub const INITIAL_RFLAGS: u64 = 0x202;

/// A task identifier; 0 is the null identifier.
#[derive(Debug, Clone, Copy, PartialEq, Eq, Structural, Hash)]
pub struct TaskId(pub u64);

impl TaskId {
    /// A fresh identifier drawn from `ids`.
    pub fn new(ids: &mut IdCounter) -> (id: Self)
        ensures
            id.0 == old(ids).peek(),
            final(ids).peek() == (if old(ids).peek() == u64::MAX { 0 } else { (old(ids).peek() + 1) as u64 }),
    {
        TaskId(ids.next_id())
    }

    /// The raw identifier.
    pub fn as_u64(self) -> (r: u64)
        ensures
            r == self.0,
    {
        self.0
    }

    /// The identifier `id`.
    pub fn from_u64(id: u64) -> (t: Self)
        ensures
            t.0 == id,
    {
        TaskId(id)
    }

    /// The null identifier.
    pub fn null() -> (t: Self)
        ensures
            t.0 == 0,
    {
        TaskId(0)
    }

    /// This is the null identifier.
    pub fn is_null(self) -> (b: bool)
        ensures
            b == (self.0 == 0),
    {
        self.0 == 0
    }
}

/// A priority: 0 is the highest, 255 the lowest.
#[derive(Debug, Clone, Copy, PartialEq, Eq, Structural, PartialOrd, Ord)]
pub struct Priority(pub u8);

impl Priority {
    /// The highest priority.
    #[allow(non_snake_case)]
    #[verifier::allow_in_spec]
    pub fn MAX() -> Self
        returns
            Priority(0),
    {
        Priority(0)
    }

    /// The lowest priority.
    #[allow(non_snake_case)]
    #[verifier::allow_in_spec]
    pub fn MIN() -> Self
        returns
            Priority(255),
    {
        Priority(255)
    }

    /// The default priority.
    #[allow(non_snake_case)]
    #[verifier::allow_in_spec]
    pub fn DEFAULT() -> Self
        returns
            Priority(128),
    {
        Priority(128)
    }

    /// A real-time priority.
    #[allow(non_snake_case)]
    #[verifier::allow_in_spec]
    pub fn REALTIME() -> Self
        returns
            Priority(16),
    {
        Priority(16)
    }

    /// The idle priority.
    #[allow(non_snake_case)]
    #[verifier::allow_in_spec]
    pub fn IDLE() -> Self
        returns
            Priority(255),
    {
        Priority(255)
    }

    /// The priority `p`.
    pub fn new(p: u8) -> (r: Self)
        ensures
            r.0 == p,
    {
        Priority(p)
    }

    /// The raw value.
    pub fn as_u8(self) -> (r: u8)
        ensures
            r == self.0,
    {
        self.0
    }

    /// Priorities 0 to 31 are real-time.
    pub fn is_realtime(self) -> (b: bool)
        ensures
            b == (self.0 <= 31),
    {
        self.0 <= 31
    }

    /// Priorities 250 and above are idle.
    pub fn is_idle(self) -> (b: bool)
        ensures
            b == (self.0 >= 250),
    {
        self.0 >= 250
    }
}

impl Default for Priority {
    fn default() -> (r: Self)
        ensures
            r.0 == 128,
    {
        Priority(128)
    }
}

/// Why a task is blocked.
#[derive(Debug, Clone, Copy, PartialEq, Eq, Structural)]
pub enum BlockReason {
    Lock,
    Io,
    Condition,
    Ipc,
    Signal,
    Debug,
    Other(u64),
}

/// A point in time, in nanoseconds since boot.
#[derive(Debug, Clone, Copy, PartialEq, Eq, Structural, PartialOrd, Ord)]
pub struct Deadline(pub u64);

impl Deadline {
    /// The deadline `ns` nanoseconds after boot.
    pub fn from_ns(ns: u64) -> (d: Self)
        ensures
            d.0 == ns,
    {
        Deadline(ns)
    }

    /// The raw value.
    pub fn as_ns(self) -> (r: u64)
        ensures
            r == self.0,
    {
        self.0
    }

    /// The deadline has passed at `now`.
    pub fn is_expired(self, now: u64) -> (b: bool)
        ensures
            b == (now >= self.0),
    {
        now >= self.0
    }

    /// Nanoseconds left at `now`, 0 once expired.
    pub fn remaining(self, now: u64) -> (r: u64)
        ensures
            r == (if self.0 > now { self.0 - now } else { 0 }),
    {
        if self.0 > now {
            self.0 - now
        } else {
            0
        }
    }
}

/// A task is either expired or has time remaining, never both.
pub proof fn lemma_deadline_remaining(d: Deadline, now: u64)
    ensures
        (now >= d.0) <==> ((if d.0 > now { d.0 - now } else { 0 }) == 0),
{
}

/// State of a task.
#[derive(Debug, Clone, Copy, PartialEq, Eq, Structural)]
pub enum TaskState {
    Ready,
    Running,
    Blocked(BlockReason),
    Sleeping(Deadline),
    Terminated,
}

/// The processors a task may run on: bit `n` for processor `n`.
#[derive(Debug, Clone, Copy, PartialEq, Eq, Structural)]
pub struct CpuAffinity(pub u64);

/// Bit `cpu` of `mask` is set.
pub open spec fn mask_allows(mask: u64, cpu: u32) -> bool {
    mask & (1u64 << cpu) != 0
}

impl CpuAffinity {
    /// Every processor.
    #[allow(non_snake_case)]
    #[verifier::allow_in_spec]
    pub fn ANY() -> Self
        returns
            CpuAffinity(0xFFFF_FFFF_FFFF_FFFF),
    {
        CpuAffinity(0xFFFF_FFFF_FFFF_FFFF)
    }

    /// Processor `cpu` only.
    pub fn single(cpu: u32) -> (a: Self)
        requires
            cpu < 64,
        ensures
            a.0 == 1u64 << cpu,
    {
        CpuAffinity(1u64 << cpu)
    }

    /// The processors of `mask`.
    pub fn from_mask(mask: u64) -> (a: Self)
        ensures
            a.0 == mask,
    {
        CpuAffinity(mask)
    }

    /// Processor `cpu` is allowed.
    pub fn allows_cpu(self, cpu: u32) -> (b: bool)
        requires
            cpu < 64,
        ensures
            b == mask_allows(self.0, cpu),
    {
        (self.0 & (1u64 << cpu)) != 0
    }

    /// The mask.
    pub fn mask(self) -> (m: u64)
        ensures
            m == self.0,
    {
        self.0
    }

    /// Allow processor `cpu`.
    pub fn add_cpu(&mut self, cpu: u32)
        requires
            cpu < 64,
        ensures
            final(self).0 == old(self).0 | (1u64 << cpu),
    {
        self.0 = self.0 | (1u64 << cpu);
    }

    /// Forbid processor `cpu`.
    pub fn remove_cpu(&mut self, cpu: u32)
        requires
            cpu < 64,
        ensures
            final(self).0 == old(self).0 & !(1u64 << cpu),
    {
        self.0 = self.0 & !(1u64 << cpu);
    }
}

impl Default for CpuAffinity {
    fn default() -> (r: Self)
        ensures
            r.0 == 0xFFFF_FFFF_FFFF_FFFF,
    {
        CpuAffinity(0xFFFF_FFFF_FFFF_FFFF)
    }
}

/// Adding a processor allows it and leaves the others as they were;
/// removing one forbids it and leaves the others; a single-processor
/// affinity allows exactly that processor; `ANY` allows every processor.
pub proof fn lemma_affinity_bits(mask: u64, cpu: u32, other: u32)
    requires
        cpu < 64,
        other < 64,
    ensures
        mask_allows(mask | (1u64 << cpu), cpu),
        other != cpu ==> (mask_allows(mask | (1u64 << cpu), other) == mask_allows(mask, other)),
        !mask_allows(mask & !(1u64 << cpu), cpu),
        other != cpu ==> (mask_allows(mask & !(1u64 << cpu), other) == mask_allows(mask, other)),
        mask_allows(1u64 << cpu, other) == (other == cpu),
        mask_allows(0xFFFF_FFFF_FFFF_FFFFu64, cpu),
{
    assert(cpu < 64 && other < 64 ==> (
        (mask | (1u64 << cpu)) & (1u64 << cpu) != 0
        && (other != cpu ==> (((mask | (1u64 << cpu)) & (1u64 << other) != 0) == (mask & (1u64 << other) != 0)))
        && (mask & !(1u64 << cpu)) & (1u64 << cpu) == 0
        && (other != cpu ==> (((mask & !(1u64 << cpu)) & (1u64 << other) != 0) == (mask & (1u64 << other) != 0)))
        && (((1u64 << cpu) & (1u64 << other) != 0) == (other == cpu))
        && 0xFFFF_FFFF_FFFF_FFFFu64 & (1u64 << cpu) != 0)) by (bit_vector);
}

/// A processor identifier.
#[derive(Debug, Clone, Copy, PartialEq, Eq, Structural)]
pub struct CpuId(pub u32);

impl CpuId {
    /// The processor `id`.
    pub fn new(id: u32) -> (c: Self)
        ensures
            c.0 == id,
    {
        CpuId(id)
    }

    /// The raw identifier.
    pub fn as_u32(self) -> (r: u32)
        ensures
            r == self.0,
    {
        self.0
    }
}

impl Default for CpuId {
    fn default() -> (r: Self)
        ensures
            r.0 == 0,
    {
        CpuId(0)
    }
}

/// The callee-saved registers and flags of a switched-out task.
#[derive(Debug, Clone, Copy, PartialEq, Eq, Structural)]
pub struct TaskContext {
    pub r15: u64,
    pub r14: u64,
    pub r13: u64,
    pub r12: u64,
    pub rbp: u64,
    pub rbx: u64,
    pub rflags: u64,
}

impl TaskContext {
    /// A context with zero registers and interrupts enabled.
    pub fn new() -> (c: Self)
        ensures
            c == (TaskContext { r15: 0, r14: 0, r13: 0, r12: 0, rbp: 0, rbx: 0, rflags: INITIAL_RFLAGS }),
    {
        TaskContext { r15: 0, r14: 0, r13: 0, r12: 0, rbp: 0, rbx: 0, rflags: INITIAL_RFLAGS }
    }
}

impl Default for TaskContext {
    fn default() -> (c: Self)
        ensures
            c == (TaskContext { r15: 0, r14: 0, r13: 0, r12: 0, rbp: 0, rbx: 0, rflags: 0 }),
    {
        TaskContext { r15: 0, r14: 0, r13: 0, r12: 0, rbp: 0, rbx: 0, rflags: 0 }
    }
}

/// Accounting of a task.
#[derive(Debug, Clone, Copy, PartialEq, Eq, Structural)]
pub struct TaskStats {
    pub cpu_time: u64,
    pub context_switches: u64,
    pub created_at: u64,
    pub started_at: Option<u64>,
}

impl Default for TaskStats {
    fn default() -> (s: Self)
        ensures
            s == (TaskStats { cpu_time: 0, context_switches: 0, created_at: 0, started_at: None }),
    {
        TaskStats { cpu_time: 0, context_switches: 0, created_at: 0, started_at: None }
    }
}

/// A schedulable unit.
#[derive(Debug, Clone, Copy)]
pub struct Task {
    pub id: TaskId,
    pub state: TaskState,
    pub priority: Priority,
    pub cpu: CpuId,
    pub affinity: CpuAffinity,
    pub time_slice: u64,
    pub kernel_stack: u64,
    pub user_stack: Option<u64>,
    pub context: TaskContext,
    pub rip: u64,
    pub address_space: u64,
    pub wakeup_time: Option<Deadline>,
    pub stats: TaskStats,
    pub entry_point: u64,
}

/// The top of the kernel stack of the kernel task with identifier `id`.
pub open spec fn kernel_stack_top(id: u64) -> int {
    KERNEL_STACK_BASE + id * KERNEL_STACK_SIZE + KERNEL_STACK_SIZE
}

impl Task {
    /// A ready kernel task starting at `entry`, with a fresh identifier
    /// from `ids`, its own kernel stack, a 10 ms slice, any processor, the
    /// kernel address space, and created at `now`.
    pub fn new_kernel(ids: &mut IdCounter, entry: u64, priority: Priority, now: u64) -> (t: Self)
        requires
            kernel_stack_top(old(ids).peek()) <= u64::MAX,
        ensures
            t.id.0 == old(ids).peek(),
            final(ids).peek() == old(ids).peek() + 1,
            t.state == TaskState::Ready,
            t.priority == priority,
            t.cpu.0 == 0,
            t.affinity.0 == 0xFFFF_FFFF_FFFF_FFFF,
            t.time_slice == DEFAULT_TASK_SLICE_NS,
            t.kernel_stack == kernel_stack_top(old(ids).peek()),
            t.user_stack is None,
            t.context == (TaskContext { r15: 0, r14: 0, r13: 0, r12: 0, rbp: 0, rbx: 0, rflags: INITIAL_RFLAGS }),
            t.rip == entry,
            t.entry_point == entry,
            t.address_space == 0,
            t.wakeup_time is None,
            t.stats == (TaskStats { cpu_time: 0, context_switches: 0, created_at: now, started_at: None }),
    {
        let id = TaskId::new(ids);
        let kernel_stack = KERNEL_STACK_BASE + id.as_u64() * KERNEL_STACK_SIZE + KERNEL_STACK_SIZE;
        Task {
            id,
            state: TaskState::Ready,
            priority,
            cpu: CpuId(0),
            affinity: CpuAffinity(0xFFFF_FFFF_FFFF_FFFF),
            time_slice: DEFAULT_TASK_SLICE_NS,
            kernel_stack,
            user_stack: None,
            context: TaskContext::new(),
            rip: entry,
            address_space: 0,
            wakeup_time: None,
            stats: TaskStats { cpu_time: 0, context_switches: 0, created_at: now, started_at: None },
            entry_point: entry,
        }
    }

    /// The idle task: identifier 0, idle priority, an endless slice,
    /// running the idle loop at `idle_entry`.
    pub fn new_idle(idle_entry: u64) -> (t: Self)
        ensures
            t.id.0 == 0,
            t.state == TaskState::Ready,
            t.priority.0 == 255,
            t.cpu.0 == 0,
            t.affinity.0 == 0xFFFF_FFFF_FFFF_FFFF,
            t.time_slice == u64::MAX,
            t.kernel_stack == 0,
            t.user_stack is None,
            t.context == (TaskContext { r15: 0, r14: 0, r13: 0, r12: 0, rbp: 0, rbx: 0, rflags: INITIAL_RFLAGS }),
            t.rip == idle_entry,
            t.entry_point == idle_entry,
            t.address_space == 0,
            t.wakeup_time is None,
            t.stats == (TaskStats { cpu_time: 0, context_switches: 0, created_at: 0, started_at: None }),
    {
        Task {
            id: TaskId(0),
            state: TaskState::Ready,
            priority: Priority(255),
            cpu: CpuId(0),
            affinity: CpuAffinity(0xFFFF_FFFF_FFFF_FFFF),
            time_slice: u64::MAX,
            kernel_stack: 0,
            user_stack: None,
            context: TaskContext::new(),
            rip: idle_entry,
            address_space: 0,
            wakeup_time: None,
            stats: TaskStats { cpu_time: 0, context_switches: 0, created_at: 0, started_at: None },
            entry_point: idle_entry,
        }
    }

    /// The task is ready.
    pub fn is_ready(&self) -> (b: bool)
        ensures
            b == (self.state == TaskState::Ready),
    {
        match self.state {
            TaskState::Ready => true,
            _ => false,
        }
    }

    /// The task is running.
    pub fn is_running(&self) -> (b: bool)
        ensures
            b == (self.state == TaskState::Running),
    {
        match self.state {
            TaskState::Running => true,
            _ => false,
        }
    }

    /// The task is blocked.
    pub fn is_blocked(&self) -> (b: bool)
        ensures
            b == (self.state is Blocked),
    {
        match self.state {
            TaskState::Blocked(_) => true,
            _ => false,
        }
    }

    /// The task has terminated.
    pub fn is_terminated(&self) -> (b: bool)
        ensures
            b == (self.state == TaskState::Terminated),
    {
        match self.state {
            TaskState::Terminated => true,
            _ => false,
        }
    }

    /// The task may run on processor `cpu`.
    pub fn can_run_on(&self, cpu: u32) -> (b: bool)
        requires
            cpu < 64,
        ensures
            b == mask_allows(self.affinity.0, cpu),
    {
        self.affinity.allows_cpu(cpu)
    }

    /// The feedback-queue level of the task's priority: 0 to 31.
    pub fn priority_level(&self) -> (l: usize)
        ensures
            l == self.priority.0 / 8,
            l <= 31,
    {
        let p = self.priority.as_u8() as usize;
        let l = p / 8;
        if l < 31 { l } else { 31 }
    }
}

} // verus!
