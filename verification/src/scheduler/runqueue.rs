//! A multi-level feedback runqueue: 32 priority levels of 16 slots each,
//! every level a ring scanned from its head.

use crate::scheduler::task::{CpuId, Priority, TaskId};
use vstd::prelude::*;

verus! {

/// Number of priority levels.
pub const NUM_PRIORITY_LEVELS: usize = 32;
/// Slots per level.
pub const MAX_TASKS_PER_QUEUE: usize = 16;

/// The level a priority queues on: eight priorities per level.
pub open spec fn level_of(p: Priority) -> int {
    (p.0 / 8) as int
}

/// Occupied slots among the first `n` of `q`.
pub open spec fn occupied_level(q: Seq<Option<TaskId>>, n: nat) -> nat
    decreases n,
{
    if n == 0 {
        0
    } else {
        occupied_level(q, (n - 1) as nat) + (if q[n - 1] is Some { 1nat } else { 0nat })
    }
}

/// Occupied slots in the first `n` levels.
pub open spec fn occupied(qs: Seq<Seq<Option<TaskId>>>, n: nat) -> nat
    decreases n,
{
    if n == 0 {
        0
    } else {
        occupied(qs, (n - 1) as nat) + occupied_level(qs[n - 1], 16)
    }
}

/// The first step `i` or later of the ring `q` read from `head` that
/// finds a free slot; 16 if none.
pub open spec fn first_free(q: Seq<Option<TaskId>>, head: int, i: int) -> int
    decreases 16 - i,
{
    if i >= 16 || i < 0 {
        16
    } else if q[(head + i) % 16] is None {
        i
    } else {
        first_free(q, head, i + 1)
    }
}

/// The first step `i` or later of the ring `q` read from `head` that
/// finds a task; 16 if none.
pub open spec fn first_task(q: Seq<Option<TaskId>>, head: int, i: int) -> int
    decreases 16 - i,
{
    if i >= 16 || i < 0 {
        16
    } else if q[(head + i) % 16] is Some {
        i
    } else {
        first_task(q, head, i + 1)
    }
}

/// The first level `l` or later holding a task; 32 if none.
pub open spec fn first_level(qs: Seq<Seq<Option<TaskId>>>, heads: Seq<usize>, l: int) -> int
    decreases 32 - l,
{
    if l >= 32 || l < 0 {
        32
    } else if first_task(qs[l], heads[l] as int, 0) < 16 {
        l
    } else {
        first_level(qs, heads, l + 1)
    }
}

/// Setting one slot changes the level's count by what that slot held and
/// now holds.
proof fn lemma_occupied_level_update(q: Seq<Option<TaskId>>, idx: int, v: Option<TaskId>, n: nat)
    requires
        0 <= idx < q.len(),
        n <= q.len(),
    ensures
        occupied_level(q.update(idx, v), n) + (if idx < n && q[idx] is Some { 1int } else { 0int })
            == occupied_level(q, n) + (if idx < n && v is Some { 1int } else { 0int }),
    decreases n,
{
    if n > 0 {
        lemma_occupied_level_update(q, idx, v, (n - 1) as nat);
    }
}

/// Replacing one level changes the total by the difference of the level
/// counts.
proof fn lemma_occupied_update(qs: Seq<Seq<Option<TaskId>>>, l: int, q: Seq<Option<TaskId>>, n: nat)
    requires
        0 <= l < qs.len(),
        n <= qs.len(),
    ensures
        occupied(qs.update(l, q), n) + (if l < n { occupied_level(qs[l], 16) as int } else { 0int })
            == occupied(qs, n) + (if l < n { occupied_level(q, 16) as int } else { 0int }),
    decreases n,
{
    if n > 0 {
        lemma_occupied_update(qs, l, q, (n - 1) as nat);
    }
}

/// A level of free slots has no occupied slot.
proof fn lemma_occupied_level_empty(q: Seq<Option<TaskId>>, n: nat)
    requires
        n <= q.len(),
        forall|i: int| 0 <= i < q.len() ==> #[trigger] q[i] is None,
    ensures
        occupied_level(q, n) == 0,
    decreases n,
{
    if n > 0 {
        lemma_occupied_level_empty(q, (n - 1) as nat);
    }
}

/// A task found in a level makes the total count positive.
proof fn lemma_occupied_positive(qs: Seq<Seq<Option<TaskId>>>, l: int, idx: int, n: nat)
    requires
        0 <= l < n <= qs.len(),
        0 <= idx < 16 <= qs[l].len(),
        qs[l][idx] is Some,
    ensures
        occupied(qs, n) >= 1,
    decreases n,
{
    if l < n - 1 {
        lemma_occupied_positive(qs, l, idx, (n - 1) as nat);
    } else {
        lemma_occupied_level_positive(qs[l], idx, 16);
    }
}

proof fn lemma_occupied_level_positive(q: Seq<Option<TaskId>>, idx: int, n: nat)
    requires
        0 <= idx < n <= q.len(),
        q[idx] is Some,
    ensures
        occupied_level(q, n) >= 1,
    decreases n,
{
    if idx < n - 1 {
        lemma_occupied_level_positive(q, idx, (n - 1) as nat);
    }
}

/// The runqueue of one processor.
pub struct Runqueue {
    pub cpu: CpuId,
    pub queues: Vec<Vec<Option<TaskId>>>,
    pub current: Option<TaskId>,
    pub idle_task: TaskId,
    pub current_level: usize,
    pub task_count: usize,
    pub queue_heads: Vec<usize>,
}

/// What the runqueue reports about itself.
#[derive(Debug, Clone)]
pub struct RunqueueStats {
    pub cpu: u32,
    pub total_tasks: usize,
    pub current_task: Option<TaskId>,
    pub per_level: Vec<usize>,
}

impl Runqueue {
    /// The slots, per level.
    pub closed spec fn slots(&self) -> Seq<Seq<Option<TaskId>>> {
        Seq::new(self.queues@.len(), |l: int| self.queues@[l]@)
    }

    /// The ring heads, per level.
    pub closed spec fn heads(&self) -> Seq<usize> {
        self.queue_heads@
    }

    /// The task count the queue keeps.
    pub closed spec fn count(&self) -> usize {
        self.task_count
    }

    /// The level the current task came from.
    pub closed spec fn level(&self) -> usize {
        self.current_level
    }

    /// 32 levels of 16 slots, heads inside their rings, and a count that
    /// covers every queued task.
    pub open spec fn wf(&self) -> bool {
        &&& self.slots().len() == 32
        &&& forall|l: int| 0 <= l < 32 ==> (#[trigger] self.slots()[l]).len() == 16
        &&& self.heads().len() == 32
        &&& forall|l: int| 0 <= l < 32 ==> #[trigger] self.heads()[l] < 16
        &&& self.count() >= occupied(self.slots(), 32)
    }

    proof fn lemma_slots(&self)
        ensures
            self.slots().len() == self.queues@.len(),
            forall|l: int| 0 <= l < self.queues@.len() ==> #[trigger] self.slots()[l] == self.queues@[l]@,
    {
    }

    /// An empty runqueue for `cpu` falling back to `idle_task`.
    pub fn new(cpu: CpuId, idle_task: TaskId) -> (rq: Self)
        ensures
            rq.wf(),
            rq.cpu == cpu,
            rq.idle_task == idle_task,
            rq.current is None,
            rq.count() == 0,
            rq.level() == 0,
            forall|l: int, i: int| 0 <= l < 32 && 0 <= i < 16 ==> #[trigger] rq.slots()[l][i] is None,
            forall|l: int| 0 <= l < 32 ==> #[trigger] rq.heads()[l] == 0,
    {
        let mut queues: Vec<Vec<Option<TaskId>>> = Vec::new();
        let mut heads: Vec<usize> = Vec::new();
        while queues.len() < NUM_PRIORITY_LEVELS
            invariant
                queues@.len() <= 32,
                heads@.len() == queues@.len(),
                forall|l: int| 0 <= l < queues@.len() ==> (#[trigger] queues@[l])@.len() == 16,
                forall|l: int, i: int| 0 <= l < queues@.len() && 0 <= i < 16 ==> #[trigger] queues@[l]@[i] is None,
                forall|l: int| 0 <= l < heads@.len() ==> #[trigger] heads@[l] == 0,
            decreases 32 - queues@.len(),
        {
            let mut q: Vec<Option<TaskId>> = Vec::new();
            while q.len() < MAX_TASKS_PER_QUEUE
                invariant
                    q@.len() <= 16,
                    forall|i: int| 0 <= i < q@.len() ==> #[trigger] q@[i] is None,
                decreases 16 - q@.len(),
            {
                q.push(None);
            }
            queues.push(q);
            heads.push(0);
        }
        let rq = Runqueue {
            cpu,
            queues,
            current: None,
            idle_task,
            current_level: 0,
            task_count: 0,
            queue_heads: heads,
        };
        proof {
            rq.lemma_slots();
            assert forall|l: int| 0 <= l < 32 implies occupied_level(#[trigger] rq.slots()[l], 16) == 0 by {
                lemma_occupied_level_empty(rq.slots()[l], 16);
            }
            lemma_occupied_all_zero(rq.slots(), 32);
        }
        rq
    }

    /// Queue `task` on its priority's level, in the first free slot from
    /// the level's head; a full level drops it.
    pub fn enqueue(&mut self, task: TaskId, priority: Priority)
        requires
            old(self).wf(),
            old(self).count() < usize::MAX,
        ensures
            final(self).wf(),
            final(self).cpu == old(self).cpu,
            final(self).current == old(self).current,
            final(self).idle_task == old(self).idle_task,
            final(self).level() == old(self).level(),
            final(self).heads() == old(self).heads(),
            ({
                let l = level_of(priority);
                let q = old(self).slots()[l];
                let i = first_free(q, old(self).heads()[l] as int, 0);
                if i < 16 {
                    let idx = (old(self).heads()[l] + i) % 16;
                    &&& final(self).slots() == old(self).slots().update(l, q.update(idx, Some(task)))
                    &&& final(self).count() == old(self).count() + 1
                } else {
                    &&& final(self).slots() == old(self).slots()
                    &&& final(self).count() == old(self).count()
                }
            }),
    {
        proof {
            self.lemma_slots();
        }
        let level = (priority.as_u8() / 8) as usize;
        let head = self.queue_heads[level];
        let ghost q = self.slots()[level as int];
        let mut i: usize = 0;
        while i < MAX_TASKS_PER_QUEUE
            invariant
                self.wf(),
                *self == *old(self),
                old(self).count() < usize::MAX,
                level == level_of(priority),
                level < 32,
                head == self.heads()[level as int],
                head < 16,
                q == self.slots()[level as int],
                i <= 16,
                first_free(q, head as int, 0) == first_free(q, head as int, i as int),
            decreases 16 - i,
        {
            proof {
                self.lemma_slots();
            }
            let idx = (head + i) % MAX_TASKS_PER_QUEUE;
            if self.queues[level][idx].is_none() {
                let ghost before = self.slots();
                let mut lq = self.queues.remove(level);
                lq.set(idx, Some(task));
                self.queues.insert(level, lq);
                proof {
                    self.lemma_slots();
                    assert(self.slots() =~= before.update(level as int, q.update(idx as int, Some(task))));
                    lemma_occupied_level_update(q, idx as int, Some(task), 16);
                    lemma_occupied_update(before, level as int, q.update(idx as int, Some(task)), 32);
                }
                self.task_count += 1;
                return;
            }
            i += 1;
        }
    }

    /// Take the first task from the highest non-empty level, scanning
    /// each level's ring from its head, and make it current; with no task
    /// queued, the idle task becomes current.
    pub fn dequeue(&mut self) -> (r: Option<TaskId>)
        requires
            old(self).wf(),
        ensures
            final(self).wf(),
            final(self).cpu == old(self).cpu,
            final(self).idle_task == old(self).idle_task,
            ({
                let l = first_level(old(self).slots(), old(self).heads(), 0);
                if l >= 32 {
                    &&& r == Some(old(self).idle_task)
                    &&& final(self).current == Some(old(self).idle_task)
                    &&& final(self).slots() == old(self).slots()
                    &&& final(self).heads() == old(self).heads()
                    &&& final(self).count() == old(self).count()
                    &&& final(self).level() == old(self).level()
                } else {
                    let q = old(self).slots()[l];
                    let h = old(self).heads()[l];
                    let idx = (h + first_task(q, h as int, 0)) % 16;
                    &&& r == q[idx]
                    &&& q[idx] is Some
                    &&& final(self).current == q[idx]
                    &&& final(self).slots() == old(self).slots().update(l, q.update(idx, None))
                    &&& final(self).heads() == old(self).heads().update(l, ((idx + 1) % 16) as usize)
                    &&& final(self).count() == old(self).count() - 1
                    &&& final(self).level() == l
                }
            }),
    {
        let mut level: usize = 0;
        while level < NUM_PRIORITY_LEVELS
            invariant
                self.wf(),
                *self == *old(self),
                level <= 32,
                first_level(self.slots(), self.heads(), 0) == first_level(self.slots(), self.heads(), level as int),
            decreases 32 - level,
        {
            proof {
                self.lemma_slots();
            }
            let head = self.queue_heads[level];
            let ghost q = self.slots()[level as int];
            let mut i: usize = 0;
            while i < MAX_TASKS_PER_QUEUE
                invariant
                    self.wf(),
                    *self == *old(self),
                    level < 32,
                    head == self.heads()[level as int],
                    head < 16,
                    q == self.slots()[level as int],
                    i <= 16,
                    first_task(q, head as int, 0) == first_task(q, head as int, i as int),
                    first_level(self.slots(), self.heads(), 0) == first_level(self.slots(), self.heads(), level as int),
                decreases 16 - i,
            {
                proof {
                    self.lemma_slots();
                }
                let idx = (head + i) % MAX_TASKS_PER_QUEUE;
                if self.queues[level][idx].is_some() {
                    let ghost before = self.slots();
                    let mut lq = self.queues.remove(level);
                    let task = lq[idx];
                    lq.set(idx, None);
                    self.queues.insert(level, lq);
                    proof {
                        self.lemma_slots();
                        assert(self.slots() =~= before.update(level as int, q.update(idx as int, None)));
                        lemma_occupied_level_update(q, idx as int, None, 16);
                        lemma_occupied_update(before, level as int, q.update(idx as int, None), 32);
                        lemma_occupied_positive(before, level as int, idx as int, 32);
                    }
                    self.queue_heads.set(level, (idx + 1) % MAX_TASKS_PER_QUEUE);
                    self.current = task;
                    self.current_level = level;
                    self.task_count -= 1;
                    return task;
                }
                i += 1;
            }
            level += 1;
        }
        self.current = Some(self.idle_task);
        Some(self.idle_task)
    }

    /// The number of queued tasks the queue counts.
    pub fn load(&self) -> (n: usize)
        ensures
            n == self.count(),
    {
        self.task_count
    }

    /// The task last handed out.
    pub fn current_task(&self) -> (t: Option<TaskId>)
        ensures
            t == self.current,
    {
        self.current
    }

    /// The count is zero.
    pub fn is_empty(&self) -> (b: bool)
        ensures
            b == (self.count() == 0),
    {
        self.task_count == 0
    }

    /// Empty every level but the highest and reset its ring head; the
    /// count is left as it was.
    pub fn boost_priorities(&mut self)
        requires
            old(self).wf(),
        ensures
            final(self).wf(),
            final(self).cpu == old(self).cpu,
            final(self).current == old(self).current,
            final(self).idle_task == old(self).idle_task,
            final(self).count() == old(self).count(),
            final(self).level() == old(self).level(),
            final(self).slots()[0] == old(self).slots()[0],
            final(self).heads()[0] == old(self).heads()[0],
            forall|l: int, i: int| 1 <= l < 32 && 0 <= i < 16 ==> #[trigger] final(self).slots()[l][i] is None,
            forall|l: int| 1 <= l < 32 ==> #[trigger] final(self).heads()[l] == 0,
    {
        let mut level: usize = 1;
        while level < NUM_PRIORITY_LEVELS
            invariant
                self.wf(),
                1 <= level <= 32,
                self.cpu == old(self).cpu,
                self.current == old(self).current,
                self.idle_task == old(self).idle_task,
                self.count() == old(self).count(),
                self.level() == old(self).level(),
                self.slots()[0] == old(self).slots()[0],
                self.heads()[0] == old(self).heads()[0],
                forall|l: int, i: int| 1 <= l < level && 0 <= i < 16 ==> #[trigger] self.slots()[l][i] is None,
                forall|l: int| 1 <= l < level ==> #[trigger] self.heads()[l] == 0,
            decreases 32 - level,
        {
            proof {
                self.lemma_slots();
            }
            self.queue_heads.set(level, 0);
            let ghost before = self.slots();
            let mut lq = self.queues.remove(level);
            assert(lq@ == before[level as int]);
            let mut i: usize = 0;
            while i < MAX_TASKS_PER_QUEUE
                invariant
                    lq@.len() == 16,
                    i <= 16,
                    forall|k: int| 0 <= k < i ==> #[trigger] lq@[k] is None,
                decreases 16 - i,
            {
                lq.set(i, None);
                i += 1;
            }
            self.queues.insert(level, lq);
            proof {
                self.lemma_slots();
                assert(self.slots() =~= before.update(level as int, lq@));
                lemma_occupied_level_empty(lq@, 16);
                lemma_occupied_update(before, level as int, lq@, 32);
            }
            level += 1;
        }
    }

    /// The queue's report: processor, count, current task, and the
    /// occupied slots per level.
    pub fn stats(&self) -> (s: RunqueueStats)
        requires
            self.wf(),
        ensures
            s.cpu == self.cpu.0,
            s.total_tasks == self.count(),
            s.current_task == self.current,
            s.per_level@.len() == 32,
            forall|l: int| 0 <= l < 32 ==> #[trigger] s.per_level@[l] == occupied_level(self.slots()[l], 16),
    {
        proof {
            self.lemma_slots();
        }
        let mut per_level: Vec<usize> = Vec::new();
        let mut l: usize = 0;
        while l < NUM_PRIORITY_LEVELS
            invariant
                self.wf(),
                l <= 32,
                per_level@.len() == l,
                forall|k: int| 0 <= k < l ==> #[trigger] per_level@[k] == occupied_level(self.slots()[k], 16),
            decreases 32 - l,
        {
            proof {
                self.lemma_slots();
            }
            let q = &self.queues[l];
            assert(q@ == self.slots()[l as int]);
            let mut n: usize = 0;
            let mut i: usize = 0;
            while i < MAX_TASKS_PER_QUEUE
                invariant
                    q@.len() == 16,
                    i <= 16,
                    n == occupied_level(q@, i as nat),
                    n <= i,
                decreases 16 - i,
            {
                if q[i].is_some() {
                    n += 1;
                }
                i += 1;
            }
            per_level.push(n);
            l += 1;
        }
        RunqueueStats { cpu: self.cpu.as_u32(), total_tasks: self.task_count, current_task: self.current, per_level }
    }
}

/// Levels with no occupied slot total zero.
proof fn lemma_occupied_all_zero(qs: Seq<Seq<Option<TaskId>>>, n: nat)
    requires
        n <= qs.len(),
        forall|l: int| 0 <= l < n ==> occupied_level(#[trigger] qs[l], 16) == 0,
    ensures
        occupied(qs, n) == 0,
    decreases n,
{
    if n > 0 {
        lemma_occupied_all_zero(qs, (n - 1) as nat);
    }
}

/// A queued task is handed out before the idle task: while any level holds
/// a task, `dequeue` finds one.
pub proof fn lemma_dequeue_finds_queued(qs: Seq<Seq<Option<TaskId>>>, heads: Seq<usize>, l: int, idx: int)
    requires
        qs.len() == 32,
        heads.len() == 32,
        forall|k: int| 0 <= k < 32 ==> (#[trigger] qs[k]).len() == 16,
        forall|k: int| 0 <= k < 32 ==> #[trigger] heads[k] < 16,
        0 <= l < 32,
        0 <= idx < 16,
        qs[l][idx] is Some,
    ensures
        first_level(qs, heads, 0) <= l,
{
    lemma_first_task_finds(qs[l], heads[l] as int, idx, 0);
    lemma_first_level_le(qs, heads, 0, l);
}

proof fn lemma_first_task_finds(q: Seq<Option<TaskId>>, head: int, idx: int, i: int)
    requires
        q.len() == 16,
        0 <= head < 16,
        0 <= idx < 16,
        q[idx] is Some,
        0 <= i <= (idx - head + 16) % 16,
    ensures
        first_task(q, head, i) <= (idx - head + 16) % 16,
    decreases 16 - i,
{
    let d = (idx - head + 16) % 16;
    assert((head + d) % 16 == idx);
    if i < d && q[(head + i) % 16] is None {
        lemma_first_task_finds(q, head, idx, i + 1);
    }
}

proof fn lemma_first_level_le(qs: Seq<Seq<Option<TaskId>>>, heads: Seq<usize>, k: int, l: int)
    requires
        0 <= k <= l < 32,
        first_task(qs[l], heads[l] as int, 0) < 16,
    ensures
        first_level(qs, heads, k) <= l,
    decreases l - k,
{
    if k < l && first_task(qs[k], heads[k] as int, 0) >= 16 {
        lemma_first_level_le(qs, heads, k + 1, l);
    }
}

/// State of the scheduler as a whole.
#[derive(Debug, Clone, Copy, PartialEq, Eq, Structural)]
pub enum SchedulerState {
    Stopped,
    Starting,
    Running,
    Stopping,
}

impl Default for SchedulerState {
    fn default() -> (s: Self)
        ensures
            s == SchedulerState::Stopped,
    {
        SchedulerState::Stopped
    }
}

} // verus!
