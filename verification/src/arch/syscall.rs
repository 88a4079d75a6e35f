//! The fast system-call path: the model-specific register settings that
//! enable it and the register frame its entry code saves.

use vstd::prelude::*;

verus! {

/// Extended feature enable register.
pub const MSR_EFER: u32 = 0xC000_0080;
/// Segment selectors for SYSCALL and SYSRET.
pub const MSR_STAR: u32 = 0xC000_0081;
/// Entry address of SYSCALL in long mode.
pub const MSR_LSTAR: u32 = 0xC000_0082;
/// Flags cleared on SYSCALL.
pub const MSR_SFMASK: u32 = 0xC000_0084;
/// The SYSCALL-enable bit of EFER.
pub const EFER_SCE: u64 = 1;
/// Bytes of the dedicated system-call stack.
pub const SYSCALL_STACK_SIZE: usize = 8192;
/// STAR: kernel code selector 0x08 in bits 32..48 (SYSCALL loads CS 0x08,
/// SS 0x10); base 0x10 in bits 48..64 (SYSRET loads CS 0x20, SS 0x18).
pub const STAR_VALUE: u64 = 0x0010_0008_0000_0000;
/// SFMASK: clear the interrupt flag on entry.
pub const SFMASK_VALUE: u64 = 0x200;

/// The register writes, in order, that enable SYSCALL/SYSRET with entry
/// point `entry`, given the current EFER value: EFER with the enable bit
/// set, the segment selectors, the entry address and the flag mask.
pub fn init(efer: u64, entry: u64) -> (writes: Vec<(u32, u64)>)
    ensures
        writes@ == seq![(MSR_EFER, efer | EFER_SCE), (MSR_STAR, STAR_VALUE), (MSR_LSTAR, entry), (MSR_SFMASK, SFMASK_VALUE)],
{
    let star: u64 = (0x0010u64 << 48u64) | (0x0008u64 << 32u64);
    assert(star == STAR_VALUE) by (bit_vector)
        requires
            star == (0x0010u64 << 48u64) | (0x0008u64 << 32u64),
    ;
    let mut writes: Vec<(u32, u64)> = Vec::new();
    writes.push((MSR_EFER, efer | EFER_SCE));
    writes.push((MSR_STAR, star));
    writes.push((MSR_LSTAR, entry));
    writes.push((MSR_SFMASK, SFMASK_VALUE));
    assert(writes@ =~= seq![(MSR_EFER, efer | EFER_SCE), (MSR_STAR, STAR_VALUE), (MSR_LSTAR, entry), (MSR_SFMASK, SFMASK_VALUE)]);
    writes
}

/// The top of the system-call stack whose lowest address is `stack_base`.
pub fn syscall_stack_top(stack_base: u64) -> (top: u64)
    requires
        stack_base + SYSCALL_STACK_SIZE <= u64::MAX,
    ensures
        top == stack_base + SYSCALL_STACK_SIZE,
{
    stack_base + SYSCALL_STACK_SIZE as u64
}

/// Saved registers of a system call: the number in `rax`, arguments in
/// `rdi`, `rsi`, `rdx`, `r10`, `r8`, `r9`, and the user return state in
/// `rcx` and `r11`.
#[derive(Debug, Clone, Copy, PartialEq, Eq, Structural)]
pub struct SyscallFrame {
    pub rax: u64,
    pub rdi: u64,
    pub rsi: u64,
    pub rdx: u64,
    pub r8: u64,
    pub r9: u64,
    pub r10: u64,
    pub rbx: u64,
    pub rbp: u64,
    pub r12: u64,
    pub r13: u64,
    pub r14: u64,
    pub r15: u64,
    pub rcx: u64,
    pub r11: u64,
}

} // verus!
