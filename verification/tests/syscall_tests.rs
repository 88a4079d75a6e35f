use sigrun::arch::syscall::SyscallFrame;
use sigrun::scheduler::task::Priority;
use sigrun::scheduler::Scheduler;
use sigrun::syscall::{decode, sleep_duration, sys_getpid, write_precheck, SyscallRequest, SYSCALL_ERROR, SYS_EXIT, SYS_GETPID, SYS_NANOSLEEP, SYS_SCHED_YIELD, SYS_WRITE};
use sigrun::syscall_api::{decode_syscall_result, SyscallArgs, SyscallError, EINVAL, ENOSYS, EPERM, SYSCALL_GETPID};

fn frame(rax: u64, rdi: u64, rsi: u64, rdx: u64) -> SyscallFrame {
    SyscallFrame {
        rax,
        rdi,
        rsi,
        rdx,
        r8: 0,
        r9: 0,
        r10: 0,
        rbx: 0,
        rbp: 0,
        r12: 0,
        r13: 0,
        r14: 0,
        r15: 0,
        rcx: 0,
        r11: 0,
    }
}

#[test]
fn syscall_args_builders() {
    let a = SyscallArgs::new(SYSCALL_GETPID);
    assert_eq!(a, SyscallArgs { num: 4, arg0: 0, arg1: 0, arg2: 0, arg3: 0, arg4: 0, arg5: 0 });
    let b = SyscallArgs::new(7).with_4args(1, 2, 3, 4);
    assert_eq!((b.num, b.arg0, b.arg1, b.arg2, b.arg3, b.arg4, b.arg5), (7, 1, 2, 3, 4, 0, 0));
    let c = SyscallArgs::new(7).with_3args(9, 8, 7).with_arg0(5);
    assert_eq!((c.arg0, c.arg1, c.arg2), (5, 8, 7));
    let d = SyscallArgs::new(1).with_args(10, 20);
    assert_eq!((d.arg0, d.arg1, d.arg2), (10, 20, 0));
}

#[test]
fn syscall_error_codes_and_text() {
    let e = SyscallError::from_raw(EINVAL);
    assert_eq!(e.raw(), 22);
    assert_eq!(e.code(), 22);
    assert_eq!(e.message(), "Invalid argument");
    assert_eq!(e.display_text(), "SyscallError(22): Invalid argument");
    assert_eq!(SyscallError::from_raw(ENOSYS).message(), "Function not implemented");
    assert_eq!(SyscallError::from_raw(-22).code(), 22);
    assert_eq!(SyscallError::from_raw(-22).message(), "Unknown error");
    assert_eq!(SyscallError::from_raw(-22).display_text(), "SyscallError(-22): Unknown error");
    assert_eq!(SyscallError::from_raw(EPERM).display_text(), "SyscallError(1): Operation not permitted");
    assert_eq!(SyscallError::from_raw(i64::MIN).code(), 0x8000_0000_0000_0000);
    assert_eq!(SyscallError::from_raw(i64::MIN).display_text(), "SyscallError(-9223372036854775808): Unknown error");
    assert_eq!(SyscallError::from_raw(0).display_text(), "SyscallError(0): Unknown error");
}

#[test]
fn syscall_results_decode() {
    assert_eq!(decode_syscall_result(42), Ok(42));
    assert_eq!(decode_syscall_result(0xFFFF_FFFF_FFFF_F000), Ok(0xFFFF_FFFF_FFFF_F000));
    assert_eq!(decode_syscall_result(0u64.wrapping_sub(22)), Err(SyscallError(-22)));
    assert_eq!(decode_syscall_result(u64::MAX), Err(SyscallError(-1)));
}

#[test]
fn syscall_frames_decode() {
    assert_eq!(decode(&frame(SYS_WRITE, 1, 0x1000, 5)), SyscallRequest::Write { fd: 1, buf: 0x1000, len: 5 });
    assert_eq!(decode(&frame(SYS_GETPID, 9, 9, 9)), SyscallRequest::GetPid);
    assert_eq!(decode(&frame(SYS_SCHED_YIELD, 0, 0, 0)), SyscallRequest::Yield);
    assert_eq!(decode(&frame(SYS_NANOSLEEP, 0x2000, 0x3000, 0)), SyscallRequest::Nanosleep { req: 0x2000, rem: 0x3000 });
    assert_eq!(decode(&frame(SYS_EXIT, 3, 0, 0)), SyscallRequest::Exit { code: 3 });
    assert_eq!(decode(&frame(999, 0, 0, 0)), SyscallRequest::Unknown { nr: 999 });
}

#[test]
fn syscall_write_and_sleep_rules() {
    assert_eq!(write_precheck(0, 5), Some(SYSCALL_ERROR));
    assert_eq!(write_precheck(3, 0), Some(SYSCALL_ERROR));
    assert_eq!(write_precheck(1, 0), Some(0));
    assert_eq!(write_precheck(2, 7), None);
    assert_eq!(sleep_duration(2, 500), 2_000_000_500);
    assert_eq!(sleep_duration(0, 0), 0);
}

#[test]
fn syscall_getpid_follows_current_task() {
    let mut s = Scheduler::init();
    assert_eq!(sys_getpid(&s), 0);
    let id = s.spawn_kernel(0x1000, Priority::DEFAULT(), 0);
    assert_eq!(sys_getpid(&s), 0);
    let _ = s.tick();
    assert_eq!(sys_getpid(&s), id.as_u64());
}
