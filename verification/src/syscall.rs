//! The kernel's system-call table (a Linux-compatible subset).
//!
//! A saved register frame is decoded into a request; the requests that
//! need the console, the clock or a stack switch are carried out by the
//! caller with the values decided here.

use crate::arch::syscall::SyscallFrame;
use crate::scheduler::Scheduler;
use vstd::prelude::*;

verus! {

pub const SYS_READ: u64 = 0;
pub const SYS_WRITE: u64 = 1;
pub const SYS_EXIT: u64 = 60;
pub const SYS_GETPID: u64 = 39;
pub const SYS_SCHED_YIELD: u64 = 24;
pub const SYS_NANOSLEEP: u64 = 35;
/// The result of an unknown call or a bad descriptor.
pub const SYSCALL_ERROR: u64 = 0xFFFF_FFFF_FFFF_FFFF;

/// A decoded system call.
#[derive(Debug, Clone, Copy, PartialEq, Eq, Structural)]
pub enum SyscallRequest {
    Write { fd: u64, buf: u64, len: u64 },
    GetPid,
    Yield,
    Nanosleep { req: u64, rem: u64 },
    Exit { code: u64 },
    Unknown { nr: u64 },
}

/// The request a frame makes: the number in `rax`, arguments from `rdi`
/// and `rsi` and `rdx`.
pub fn decode(frame: &SyscallFrame) -> (r: SyscallRequest)
    ensures
        r == (if frame.rax == SYS_WRITE { SyscallRequest::Write { fd: frame.rdi, buf: frame.rsi, len: frame.rdx } }
            else if frame.rax == SYS_GETPID { SyscallRequest::GetPid }
            else if frame.rax == SYS_SCHED_YIELD { SyscallRequest::Yield }
            else if frame.rax == SYS_NANOSLEEP { SyscallRequest::Nanosleep { req: frame.rdi, rem: frame.rsi } }
            else if frame.rax == SYS_EXIT { SyscallRequest::Exit { code: frame.rdi } }
            else { SyscallRequest::Unknown { nr: frame.rax } }),
{
    let nr = frame.rax;
    if nr == SYS_WRITE {
        SyscallRequest::Write { fd: frame.rdi, buf: frame.rsi, len: frame.rdx }
    } else if nr == SYS_GETPID {
        SyscallRequest::GetPid
    } else if nr == SYS_SCHED_YIELD {
        SyscallRequest::Yield
    } else if nr == SYS_NANOSLEEP {
        SyscallRequest::Nanosleep { req: frame.rdi, rem: frame.rsi }
    } else if nr == SYS_EXIT {
        SyscallRequest::Exit { code: frame.rdi }
    } else {
        SyscallRequest::Unknown { nr }
    }
}

/// The result of a write decided before touching the console: a bad
/// descriptor (neither 1 nor 2) fails, an empty write gives 0; otherwise
/// the bytes are written and the call gives `len`.
pub fn write_precheck(fd: u64, len: u64) -> (r: Option<u64>)
    ensures
        r == (if fd != 1 && fd != 2 { Some(SYSCALL_ERROR) } else if len == 0 { Some(0u64) } else { None::<u64> }),
{
    if fd != 1 && fd != 2 {
        return Some(SYSCALL_ERROR);
    }
    if len == 0 {
        return Some(0);
    }
    None
}

/// The running task's identifier, 0 with none.
pub fn sys_getpid(sched: &Scheduler) -> (pid: u64)
    requires
        sched.wf(),
    ensures
        pid == (match sched.current_idx {
            None => 0,
            Some(i) => match sched.table.slots@[i as int] {
                Some(t) => t.id.0,
                None => 0,
            },
        }),
{
    match sched.current_task_id() {
        Some(id) => id.as_u64(),
        None => 0,
    }
}

/// Nanoseconds a `timespec` of `secs` seconds and `nsecs` nanoseconds
/// asks to sleep.
pub fn sleep_duration(secs: u64, nsecs: u64) -> (ns: u64)
    requires
        secs * 1_000_000_000 + nsecs <= u64::MAX,
    ensures
        ns == secs * 1_000_000_000 + nsecs,
{
    secs * 1_000_000_000 + nsecs
}

} // verus!
