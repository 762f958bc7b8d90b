//! List of syscall names that a child needs at the least.
//!
//! This allows for a larger than minimal set of privileges because the executable
//! will generally need access to load dynamic libraries and perform some
//! basic thread setup, even if it doesn't use threads.  The list is for
//! information: the confinement itself does not rest on it.

use vstd::prelude::*;

verus! {

pub const ALLOW_LIST: [&'static str; 47] = [
    "read",
    "write",
    "readv",
    "writev",
    "close",
    "pread64",
    "pwrite64",
    "access",
    "faccessat",
    "faccessat2",
    "fcntl",
    "lseek",
    "exit",
    "exit_group",
    "brk",
    "mmap",
    "mprotect",
    "mremap",
    "munmap",
    "madvise",
    "rt_sigaction",
    "rt_sigprocmask",
    "rt_sigreturn",
    "sigaltstack",
    "arch_prctl",
    "set_tid_address",
    "set_robust_list",
    "futex",
    "rseq",
    "getpid",
    "gettid",
    "getrandom",
    "fstat",
    "fstatat",
    "newfstatat",
    "prlimit64",
    "poll",
    // Rely on FD inheritance and FD closures before exec to add restrictions that this would otherwise let pass.
    "ioctl",
    // Some code uses threads, or sets up threads even if not used.
    "set_tid_address",
    "set_robust_list",
    "futex",
    "rseq",
    "rt_sigreturn",
    // Allow the command execution to happen.
    "execve",
    // For lazy loaded libraries, some limited use of openat is allowed.
    // The confinement is relied on to prevent bad opens.
    "open",
    "openat",
    "openat2",
];

} // verus!
