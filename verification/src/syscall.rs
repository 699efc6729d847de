//! The fixed numeric system-call ABI: a closed dispatch surface between the
//! trap layer and the kernel services.
//!
//! Each recognized identifier routes to a handler of fixed arity: exactly
//! three word-sized arguments in, one signed word-sized result out.  The
//! handlers here are the kernel's reference services for this core:
//!
//! * `write` (64) reports how many bytes were accepted for the console
//!   descriptor; validating the buffer itself is the console driver's job.
//! * `exit` (93) terminates the calling task; the scheduler retires the task,
//!   so the numeric result is never observed by the caller.
//! * `yield` (124) relinquishes the hart voluntarily and reports success once
//!   the task is scheduled again.
//!
//! An identifier outside the table is answered with `-1` and nothing else
//! happens: unknown system calls degrade gracefully, in contrast with an
//! unclassified trap cause, which is fatal (see `trap`).

use vstd::prelude::*;

verus! {

/// Identifier of the `write` system call.
pub const SYSCALL_WRITE: usize = 64;

/// Identifier of the `exit` system call.
pub const SYSCALL_EXIT: usize = 93;

/// Identifier of the `yield` system call.
pub const SYSCALL_YIELD: usize = 124;

/// The one file descriptor the console accepts writes on.
pub const FD_STDOUT: usize = 1;

/// Whether `id` is one of the identifiers the table recognizes.
pub open spec fn is_supported_id(id: usize) -> bool {
    id == SYSCALL_WRITE || id == SYSCALL_EXIT || id == SYSCALL_YIELD
}

/// Result of the `write` service: the number of bytes accepted for the
/// console descriptor, or a negative error code.  A length that cannot be
/// represented as a signed word cannot be reported back, so it is refused.
pub open spec fn spec_write_result(fd: usize, len: usize) -> isize {
    if fd == FD_STDOUT && len <= isize::MAX {
        len as isize
    } else {
        -1isize
    }
}

/// Result delivered for each identifier: what `syscall` routes to.
pub open spec fn spec_syscall_result(id: usize, arg0: usize, arg1: usize, arg2: usize) -> isize {
    if id == SYSCALL_WRITE {
        spec_write_result(arg0, arg2)
    } else if id == SYSCALL_EXIT {
        0
    } else if id == SYSCALL_YIELD {
        0
    } else {
        -1isize
    }
}

/// `write(fd, buffer, len)`: accept `len` bytes for the console descriptor.
///
/// The buffer pointer is an opaque user-space word at this layer; bounds
/// checking it is the responsibility of the console driver that consumes it.
pub fn sys_write(fd: usize, buffer: usize, len: usize) -> (r: isize)
    ensures
        r == spec_write_result(fd, len),
{
    if fd == FD_STDOUT && len <= (isize::MAX as usize) {
        len as isize
    } else {
        -1isize
    }
}

/// `exit(code)`: terminate the calling task.
///
/// Retiring the task is the scheduler's side of the contract; the caller
/// never resumes to observe the returned value.
pub fn sys_exit(_code: usize) -> (r: isize)
    ensures
        r == 0,
{
    0
}

/// `yield()`: relinquish the hart; reports `0` once the task runs again.
pub fn sys_yield() -> (r: isize)
    ensures
        r == 0,
{
    0
}

/// Route one system call: fixed identifier, fixed arity of three.
///
/// Every supported identifier returns the result `spec_syscall_result`
/// pins down; any identifier outside the table returns `-1` and has no
/// other effect.
pub fn syscall(syscall_id: usize, args: [usize; 3]) -> (r: isize)
    ensures
        r == spec_syscall_result(syscall_id, args[0], args[1], args[2]),
        !is_supported_id(syscall_id) ==> r == -1,
        syscall_id == SYSCALL_YIELD ==> r == 0,
{
    if syscall_id == SYSCALL_WRITE {
        sys_write(args[0], args[1], args[2])
    } else if syscall_id == SYSCALL_EXIT {
        sys_exit(args[0])
    } else if syscall_id == SYSCALL_YIELD {
        sys_yield()
    } else {
        -1isize
    }
}

} // verus!
