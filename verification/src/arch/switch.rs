//! The stack frames a task's first context switch starts from.
//!
//! A switch saves the callee-saved registers and the flags on the old
//! stack and restores them from the new one before returning into it.  A
//! fresh task therefore needs a stack that looks as if it had been
//! switched away from; these functions say which words that stack holds.
//! Writing the words into memory is the caller's part.

use vstd::prelude::*;

verus! {

/// Flags a task starts with: interrupts enabled, reserved bit 1 set.
pub const TASK_RFLAGS: u64 = 0x202;
/// User data segment selector with privilege level 3.
pub const USER_SS_SELECTOR: u64 = 0x1b;
/// User code segment selector with privilege level 3.
pub const USER_CS_SELECTOR: u64 = 0x23;

/// A prepared stack: the saved stack pointer and the words stored from it
/// upward, one per eight bytes.
#[derive(Debug, Clone)]
pub struct StackFrame {
    pub rsp: u64,
    pub words: Vec<u64>,
}

/// The frame for a kernel task entered at `entry_point`, below
/// `stack_top`: six zeroed callee-saved registers (rbx, rbp, r12 to r15),
/// the initial flags, and the entry address the switch returns to.
pub fn init_task_stack(stack_top: u64, entry_point: u64) -> (f: StackFrame)
    requires
        stack_top >= 64,
    ensures
        f.rsp == stack_top - 64,
        f.words@ == seq![0u64, 0u64, 0u64, 0u64, 0u64, 0u64, TASK_RFLAGS, entry_point],
{
    let mut words: Vec<u64> = Vec::new();
    let mut i: usize = 0;
    while i < 6
        invariant
            i <= 6,
            words@.len() == i,
            forall|j: int| 0 <= j < i ==> #[trigger] words@[j] == 0,
        decreases 6 - i,
    {
        words.push(0);
        i += 1;
    }
    words.push(TASK_RFLAGS);
    words.push(entry_point);
    assert(words@ =~= seq![0u64, 0u64, 0u64, 0u64, 0u64, 0u64, TASK_RFLAGS, entry_point]);
    StackFrame { rsp: stack_top - 64, words }
}

/// The frame for a user task: the switch frame (seven zero words for the
/// registers and flags, then `trampoline`, the code that returns to user
/// mode) and above it the return frame that code consumes: user
/// instruction pointer, user code selector, initial flags, user stack
/// pointer and user stack selector.
pub fn init_ring3_task_stack(kernel_stack_top: u64, user_stack_top: u64, user_rip: u64, trampoline: u64) -> (f: StackFrame)
    requires
        kernel_stack_top >= 104,
    ensures
        f.rsp == kernel_stack_top - 104,
        f.words@ == seq![
            0u64, 0u64, 0u64, 0u64, 0u64, 0u64, 0u64,
            trampoline, user_rip, USER_CS_SELECTOR, TASK_RFLAGS, user_stack_top, USER_SS_SELECTOR,
        ],
{
    let mut words: Vec<u64> = Vec::new();
    let mut i: usize = 0;
    while i < 7
        invariant
            i <= 7,
            words@.len() == i,
            forall|j: int| 0 <= j < i ==> #[trigger] words@[j] == 0,
        decreases 7 - i,
    {
        words.push(0);
        i += 1;
    }
    words.push(trampoline);
    words.push(user_rip);
    words.push(USER_CS_SELECTOR);
    words.push(TASK_RFLAGS);
    words.push(user_stack_top);
    words.push(USER_SS_SELECTOR);
    assert(words@ =~= seq![
        0u64, 0u64, 0u64, 0u64, 0u64, 0u64, 0u64,
        trampoline, user_rip, USER_CS_SELECTOR, TASK_RFLAGS, user_stack_top, USER_SS_SELECTOR,
    ]);
    StackFrame { rsp: kernel_stack_top - 104, words }
}

} // verus!
