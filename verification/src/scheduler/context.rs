//! Preparing tasks for their first context switch.
//!
//! Saving and restoring registers is processor work done by the caller;
//! this module sets up a task's saved state and says which words go on
//! its fresh stack.

use crate::scheduler::task::{Task, TaskContext, INITIAL_RFLAGS};
use vstd::prelude::*;

verus! {

/// Performs context switches.
#[derive(Debug, Clone, Copy)]
pub struct ContextSwitcher;

impl ContextSwitcher {
    /// The switcher.
    pub fn new() -> (s: Self) {
        ContextSwitcher
    }

    /// Set `task` up to start at `entry_point` on the stack whose top is
    /// `stack_top`: a fresh context, the entry address, and a stack pointer
    /// two words down. Gives the (address, value) words to write on the
    /// stack: the entry address just below the top, then the initial
    /// flags.
    pub fn init_task_context(task: &mut Task, entry_point: usize, stack_top: usize) -> (writes: Vec<(u64, u64)>)
        requires
            stack_top >= 16,
        ensures
            final(task).context == (TaskContext { r15: 0, r14: 0, r13: 0, r12: 0, rbp: 0, rbx: 0, rflags: INITIAL_RFLAGS }),
            final(task).rip == entry_point as u64,
            final(task).kernel_stack == (stack_top - 16) as u64,
            final(task).id == old(task).id,
            final(task).state == old(task).state,
            final(task).priority == old(task).priority,
            final(task).entry_point == old(task).entry_point,
            final(task).stats == old(task).stats,
            writes@ == seq![((stack_top - 8) as u64, entry_point as u64), ((stack_top - 16) as u64, INITIAL_RFLAGS)],
    {
        task.context = TaskContext::new();
        task.rip = entry_point as u64;
        let top = stack_top as u64;
        task.kernel_stack = top - 16;
        let mut writes: Vec<(u64, u64)> = Vec::new();
        writes.push((top - 8, entry_point as u64));
        writes.push((top - 16, INITIAL_RFLAGS));
        assert(writes@ =~= seq![((stack_top - 8) as u64, entry_point as u64), ((stack_top - 16) as u64, INITIAL_RFLAGS)]);
        writes
    }
}

impl Default for ContextSwitcher {
    fn default() -> (s: Self) {
        ContextSwitcher
    }
}

} // verus!
