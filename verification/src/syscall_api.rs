//! System call interface shared between userspace and the kernel:
//! argument packing, error codes and syscall numbers.

use vstd::prelude::*;

verus! {

// ── Syscall numbers ──────────────────────────────────────────────────────────
pub const SYSCALL_EXIT: u64 = 0;
pub const SYSCALL_FORK: u64 = 1;
pub const SYSCALL_EXEC: u64 = 2;
pub const SYSCALL_WAIT: u64 = 3;
pub const SYSCALL_GETPID: u64 = 4;
pub const SYSCALL_GETPPID: u64 = 5;
pub const SYSCALL_MMAP: u64 = 10;
pub const SYSCALL_MUNMAP: u64 = 11;
pub const SYSCALL_MPROTECT: u64 = 12;
pub const SYSCALL_OPEN: u64 = 20;
pub const SYSCALL_CLOSE: u64 = 21;
pub const SYSCALL_READ: u64 = 22;
pub const SYSCALL_WRITE: u64 = 23;
pub const SYSCALL_STAT: u64 = 24;
pub const SYSCALL_LSEEK: u64 = 25;
pub const SYSCALL_IPC_SEND: u64 = 30;
pub const SYSCALL_IPC_RECV: u64 = 31;
pub const SYSCALL_IPC_CREATE: u64 = 32;
pub const SYSCALL_IPC_DESTROY: u64 = 33;
pub const SYSCALL_CAP_GRANT: u64 = 40;
pub const SYSCALL_CAP_REVOKE: u64 = 41;
pub const SYSCALL_CAP_DERIVE: u64 = 42;
pub const SYSCALL_CAP_LOOKUP: u64 = 43;
pub const SYSCALL_YIELD: u64 = 50;
pub const SYSCALL_SET_PRIORITY: u64 = 51;
pub const SYSCALL_GET_PRIORITY: u64 = 52;
pub const SYSCALL_SLEEP: u64 = 53;
pub const SYSCALL_WAKE: u64 = 54;
pub const SYSCALL_GETTIME: u64 = 60;
pub const SYSCALL_CLOCK_GETTIME: u64 = 61;
pub const SYSCALL_GETCPU: u64 = 70;
pub const SYSCALL_GETUID: u64 = 71;

// ── Error codes ──────────────────────────────────────────────────────────────
pub const EPERM: i64 = 1;
pub const ENOENT: i64 = 2;
pub const ESRCH: i64 = 3;
pub const EINTR: i64 = 4;
pub const EIO: i64 = 5;
pub const ENXIO: i64 = 6;
pub const ENOMEM: i64 = 12;
pub const EACCES: i64 = 13;
pub const EFAULT: i64 = 14;
pub const EBUSY: i64 = 16;
pub const EEXIST: i64 = 17;
pub const ENODEV: i64 = 19;
pub const EINVAL: i64 = 22;
pub const ENOSPC: i64 = 28;
pub const EROFS: i64 = 30;
pub const EPIPE: i64 = 32;
pub const ENOSYS: i64 = 38;

/// The raw value above which a syscall return value encodes an error.
pub const SYSCALL_ERROR_THRESHOLD: u64 = 0xFFFF_FFFF_FFFF_F000;

/// System call arguments, one per register.
#[derive(Debug, Clone, Copy, PartialEq, Eq, Structural)]
pub struct SyscallArgs {
    pub num: u64,
    pub arg0: u64,
    pub arg1: u64,
    pub arg2: u64,
    pub arg3: u64,
    pub arg4: u64,
    pub arg5: u64,
}

impl SyscallArgs {
    /// A syscall with no arguments.
    pub fn new(num: u64) -> (r: Self)
        ensures
            r == (SyscallArgs { num, arg0: 0, arg1: 0, arg2: 0, arg3: 0, arg4: 0, arg5: 0 }),
    {
        Self { num, arg0: 0, arg1: 0, arg2: 0, arg3: 0, arg4: 0, arg5: 0 }
    }

    /// Set the first argument.
    pub fn with_arg0(self, arg0: u64) -> (r: Self)
        ensures
            r == (SyscallArgs { arg0, ..self }),
    {
        let mut s = self;
        s.arg0 = arg0;
        s
    }

    /// Set the first two arguments.
    pub fn with_args(self, arg0: u64, arg1: u64) -> (r: Self)
        ensures
            r == (SyscallArgs { arg0, arg1, ..self }),
    {
        let mut s = self;
        s.arg0 = arg0;
        s.arg1 = arg1;
        s
    }

    /// Set the first three arguments.
    pub fn with_3args(self, arg0: u64, arg1: u64, arg2: u64) -> (r: Self)
        ensures
            r == (SyscallArgs { arg0, arg1, arg2, ..self }),
    {
        let mut s = self;
        s.arg0 = arg0;
        s.arg1 = arg1;
        s.arg2 = arg2;
        s
    }

    /// Set the first four arguments.
    pub fn with_4args(self, arg0: u64, arg1: u64, arg2: u64, arg3: u64) -> (r: Self)
        ensures
            r == (SyscallArgs { arg0, arg1, arg2, arg3, ..self }),
    {
        let mut s = self;
        s.arg0 = arg0;
        s.arg1 = arg1;
        s.arg2 = arg2;
        s.arg3 = arg3;
        s
    }
}

/// System call error: a raw (negative on the wire) error code.
#[derive(Debug, Clone, Copy, PartialEq, Eq, Structural)]
pub struct SyscallError(pub i64);

/// The message for each error code.
pub open spec fn error_code_text(code: i64) -> Seq<char> {
    if code == EPERM {
        "Operation not permitted"@
    } else if code == ENOENT {
        "No such file or directory"@
    } else if code == ESRCH {
        "No such process"@
    } else if code == EINTR {
        "Interrupted system call"@
    } else if code == EIO {
        "I/O error"@
    } else if code == ENXIO {
        "No such device or address"@
    } else if code == ENOMEM {
        "Out of memory"@
    } else if code == EACCES {
        "Permission denied"@
    } else if code == EFAULT {
        "Bad address"@
    } else if code == EBUSY {
        "Device or resource busy"@
    } else if code == EEXIST {
        "File exists"@
    } else if code == ENODEV {
        "No such device"@
    } else if code == EINVAL {
        "Invalid argument"@
    } else if code == ENOSPC {
        "No space left on device"@
    } else if code == EROFS {
        "Read-only file system"@
    } else if code == EPIPE {
        "Broken pipe"@
    } else if code == ENOSYS {
        "Function not implemented"@
    } else {
        "Unknown error"@
    }
}

/// The character for a decimal digit.
pub open spec fn digit_char(d: nat) -> char {
    (d + 48) as char
}

/// The decimal digits of `n`, most significant first.
pub open spec fn decimal_digits(n: nat) -> Seq<char>
    decreases n,
{
    if n < 10 {
        seq![digit_char(n)]
    } else {
        decimal_digits(n / 10).push(digit_char(n % 10))
    }
}

/// `v` written in decimal, with a leading `-` when negative.
pub open spec fn decimal_text(v: i64) -> Seq<char> {
    if v < 0 {
        seq!['-'] + decimal_digits((-v) as nat)
    } else {
        decimal_digits(v as nat)
    }
}

/// Append the decimal digits of `n` to `out`.
fn push_digits(out: &mut Vec<char>, n: u64)
    ensures
        final(out)@ == old(out)@ + decimal_digits(n as nat),
    decreases n,
{
    if n >= 10 {
        push_digits(out, n / 10);
    }
    let d: u8 = (n % 10) as u8;
    out.push((d + 48u8) as char);
    proof {
        assert(final(out)@ =~= old(out)@ + decimal_digits(n as nat));
    }
}

/// Append the characters of `s` to `out`.
fn push_chars(out: &mut Vec<char>, s: &str)
    ensures
        final(out)@ == old(out)@ + s@,
{
    let n = s.unicode_len();
    let mut i: usize = 0;
    while i < n
        invariant
            n == s@.len(),
            i <= n,
            out@ == old(out)@ + s@.subrange(0, i as int),
        decreases n - i,
    {
        out.push(s.get_char(i));
        i += 1;
        proof {
            assert(out@ =~= old(out)@ + s@.subrange(0, i as int));
        }
    }
    assert(s@.subrange(0, n as int) =~= s@);
}

/// Collect characters into a string.
///
/// Calls std's `FromIterator<char>` for `String`; claims that the string
/// holds the characters in order, as std documents.
#[verifier::external_body]
fn string_from_chars(chars: &Vec<char>) -> (s: String)
    ensures
        s@ == chars@,
{
    chars.iter().collect()
}

impl SyscallError {
    /// Create from a raw error code.
    pub fn from_raw(code: i64) -> (e: Self)
        ensures
            e.0 == code,
    {
        Self(code)
    }

    /// The raw error code.
    pub fn raw(self) -> (r: i64)
        ensures
            r == self.0,
    {
        self.0
    }

    /// The error code as a positive number: the magnitude of the raw code.
    pub fn code(self) -> (r: u64)
        ensures
            r == (if self.0 < 0 { -self.0 } else { self.0 as int }),
    {
        if self.0 == i64::MIN {
            0x8000_0000_0000_0000u64
        } else if self.0 < 0 {
            (-self.0) as u64
        } else {
            self.0 as u64
        }
    }

    /// The error as text: `SyscallError(`, the raw code in decimal, `): `
    /// and the message.
    pub fn display_text(self) -> (t: String)
        ensures
            t@ == "SyscallError("@ + decimal_text(self.0) + "): "@ + error_code_text(self.0),
    {
        let mut out: Vec<char> = Vec::new();
        push_chars(&mut out, "SyscallError(");
        if self.0 < 0 {
            push_chars(&mut out, "-");
            let magnitude: u64 = if self.0 == i64::MIN { 0x8000_0000_0000_0000u64 } else { (-self.0) as u64 };
            push_digits(&mut out, magnitude);
            proof {
                reveal_strlit("-");
            }
        } else {
            push_digits(&mut out, self.0 as u64);
        }
        push_chars(&mut out, "): ");
        push_chars(&mut out, self.message());
        proof {
            assert(out@ =~= "SyscallError("@ + decimal_text(self.0) + "): "@ + error_code_text(self.0));
        }
        string_from_chars(&out)
    }

    /// The human-readable message for this error code.
    pub fn message(self) -> (m: &'static str)
        ensures
            m@ == error_code_text(self.0),
    {
        if self.0 == EPERM {
            "Operation not permitted"
        } else if self.0 == ENOENT {
            "No such file or directory"
        } else if self.0 == ESRCH {
            "No such process"
        } else if self.0 == EINTR {
            "Interrupted system call"
        } else if self.0 == EIO {
            "I/O error"
        } else if self.0 == ENXIO {
            "No such device or address"
        } else if self.0 == ENOMEM {
            "Out of memory"
        } else if self.0 == EACCES {
            "Permission denied"
        } else if self.0 == EFAULT {
            "Bad address"
        } else if self.0 == EBUSY {
            "Device or resource busy"
        } else if self.0 == EEXIST {
            "File exists"
        } else if self.0 == ENODEV {
            "No such device"
        } else if self.0 == EINVAL {
            "Invalid argument"
        } else if self.0 == ENOSPC {
            "No space left on device"
        } else if self.0 == EROFS {
            "Read-only file system"
        } else if self.0 == EPIPE {
            "Broken pipe"
        } else if self.0 == ENOSYS {
            "Function not implemented"
        } else {
            "Unknown error"
        }
    }
}

/// Interpret the raw value a syscall instruction returns: values above the
/// error threshold are errors, carrying the raw value reinterpreted as
/// signed; others are successful results.
pub fn decode_syscall_result(result: u64) -> (r: Result<u64, SyscallError>)
    ensures
        result > SYSCALL_ERROR_THRESHOLD ==> r == Err::<u64, SyscallError>(SyscallError((result as int - 0x1_0000_0000_0000_0000int) as i64)),
        result <= SYSCALL_ERROR_THRESHOLD ==> r == Ok::<u64, SyscallError>(result),
{
    if result > SYSCALL_ERROR_THRESHOLD {
        let neg: u64 = 0u64.wrapping_sub(result);
        // `neg` is in 1 .. 0x1000, so `-(neg as i64)` is the signed reading.
        let v: i64 = -(neg as i64);
        Err(SyscallError::from_raw(v))
    } else {
        Ok(result)
    }
}

} // verus!
