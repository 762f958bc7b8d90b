//! Handle the "file descriptor" style passing from the parent to the child.
//!
//! Pipes are made so that no handle can be inherited; of each pipe only the
//! child's end is then opened for inheritance, and only the handles on the
//! allow-list of the new process cross over.

use super::error::{WinError, WindowsSandboxError};
use crate::runtime::error::SandboxError;
use vstd::prelude::*;
use vstd::string::StringExecFns;

verus! {

#[derive(Debug, Clone, Copy, PartialEq, Eq, Structural)]
pub enum StreamDirection {
    ToChild,
    FromChild,
}

/// Piped file descriptor: the logical descriptor, the handles of the two ends
/// as far as they are still held, and the way the data flows.
#[derive(Debug, Clone, Copy, PartialEq, Eq, Structural)]
pub struct WinFd {
    pub fd: u32,
    pub parent_handle: Option<usize>,
    pub child_handle: Option<usize>,
    pub direction: StreamDirection,
}

pub struct StdIoSet {
    pub stdin: StdIo,
    pub stdout: StdIo,
    pub stderr: StdIo,
}

#[derive(Debug, Clone, Copy, PartialEq, Eq, Structural)]
pub enum StdIo {
    /// don't use this fd
    Unused,
    /// reuse the parent's handle
    PassThrough,
    /// use a pipe.
    Pipe,
}

#[derive(Debug, Clone, Copy, PartialEq, Eq, Structural)]
pub enum StdIoFd {
    /// don't use this fd
    Unused,
    /// use a pipe.
    Pipe(WinFd),
}

/// The handles that were made for one of the standard streams.
#[derive(Debug, Clone, Copy, PartialEq, Eq, Structural)]
pub enum StdIoHandles {
    /// Nothing was made.
    Nothing,
    /// The parent's own handle was duplicated; the copy is for the child.
    Duplicate(usize),
    /// A pipe was made; these are its reading and its writing end.
    Pipe(usize, usize),
}

pub struct WinFdSet {
    stdin: StdIoFd,
    stdout: StdIoFd,
    stderr: StdIoFd,
    others: Vec<WinFd>,
}

/// The digit for a number below sixteen.
pub open spec fn digit_unit(d: int) -> u16 {
    if d < 10 {
        (0x30 + d) as u16
    } else {
        (0x61 + d - 10) as u16
    }
}

/// A number in decimal digits.
pub open spec fn decimal_units(n: nat) -> Seq<u16>
    decreases n,
{
    if n < 10 {
        seq![digit_unit(n as int)]
    } else {
        decimal_units(n / 10).push(digit_unit((n % 10) as int))
    }
}

/// A number in hexadecimal digits, the letters in lower case.
pub open spec fn hex_units(n: nat) -> Seq<u16>
    decreases n,
{
    if n < 16 {
        seq![digit_unit(n as int)]
    } else {
        hex_units(n / 16).push(digit_unit((n % 16) as int))
    }
}

/// How a handle is told to the child: `FD:0xHANDLE;`, the descriptor in
/// decimal and the handle in hexadecimal digits.
pub open spec fn env_val_units(fd: u32, handle: usize) -> Seq<u16> {
    decimal_units(fd as nat) + seq![0x3au16, 0x30u16, 0x78u16] + hex_units(handle as nat) + seq![
        0x3bu16,
    ]
}

/// The direction that a standard stream has by its number.
pub open spec fn std_direction(fd: u32) -> Option<StreamDirection> {
    if fd == 0 {
        Some(StreamDirection::ToChild)
    } else if fd == 1 || fd == 2 {
        Some(StreamDirection::FromChild)
    } else {
        None
    }
}

/// Appends a number in digits to the base given, ten or sixteen.
pub(crate) fn push_number(out: &mut Vec<u16>, n: usize, base: usize)
    requires
        base == 10 || base == 16,
    ensures
        final(out)@ == old(out)@ + (if base == 10 {
            decimal_units(n as nat)
        } else {
            hex_units(n as nat)
        }),
    decreases n,
{
    if n >= base {
        push_number(out, n / base, base);
    }
    let d = n % base;
    let unit: u16 = if d < 10 {
        0x30 + d as u16
    } else {
        0x61 + (d as u16 - 10)
    };
    out.push(unit);
    proof {
        let digits = if base == 10 {
            decimal_units(n as nat)
        } else {
            hex_units(n as nat)
        };
        assert(unit == digit_unit(d as int));
        assert(out@ =~= old(out)@ + digits);
    }
}

impl WinFd {
    /// The piped handles for a descriptor, from a pipe that was made without
    /// any inheritance: where the data flows to the child the parent keeps the
    /// writing end and the child gets the reading end, and the other way round
    /// where it flows from the child.  The child's end is the one to open for
    /// inheritance.
    pub fn new(fd: u32, direction: StreamDirection, read: usize, write: usize) -> (r: WinFd)
        ensures
            r.fd_spec() == fd,
            r.direction_spec() == direction,
            r.parent_spec() == Some(if direction == StreamDirection::ToChild {
                write
            } else {
                read
            }),
            r.child_spec() == Some(if direction == StreamDirection::ToChild {
                read
            } else {
                write
            }),
    {
        match direction {
            StreamDirection::ToChild => WinFd {
                fd,
                direction,
                parent_handle: Some(write),
                child_handle: Some(read),
            },
            StreamDirection::FromChild => WinFd {
                fd,
                direction,
                parent_handle: Some(read),
                child_handle: Some(write),
            },
        }
    }

    /// The descriptor for a standard stream that the child shares with the
    /// parent: `duplicate` is a copy of the parent's own handle, made for the
    /// child.  The parent has no end of its own.  Only 0, 1 and 2 are standard
    /// streams.
    pub fn from_std(fd: u32, duplicate: usize) -> (r: Result<WinFd, WinError>)
        ensures
            std_direction(fd) is Some <==> r is Ok,
            r matches Ok(w) ==> {
                &&& w.fd_spec() == fd
                &&& w.direction_spec() == std_direction(fd)->Some_0
                &&& w.parent_spec() is None
                &&& w.child_spec() == Some(duplicate)
            },
            r matches Err(e) ==> e.code == 0 && e.message@ == "invalid standard i/o number"@,
    {
        let direction = if fd == 0 {
            StreamDirection::ToChild
        } else if fd == 1 || fd == 2 {
            StreamDirection::FromChild
        } else {
            return Err(
                WinError { code: 0, message: String::from_str("invalid standard i/o number") },
            );
        };
        Ok(
            WinFd {
                fd,
                direction,
                // This is a pass-through FD, so the parent process will not access it.
                parent_handle: None,
                child_handle: Some(duplicate),
            },
        )
    }

    pub open spec fn fd_spec(&self) -> u32 {
        self.fd
    }

    pub open spec fn direction_spec(&self) -> StreamDirection {
        self.direction
    }

    /// The parent's end, as long as it is held.
    pub open spec fn parent_spec(&self) -> Option<usize> {
        self.parent_handle
    }

    /// The child's end, as long as it is held.
    pub open spec fn child_spec(&self) -> Option<usize> {
        self.child_handle
    }

    pub fn fd(&self) -> (fd: u32)
        ensures
            fd == self.fd_spec(),
    {
        self.fd
    }

    pub fn direction(&self) -> (d: StreamDirection)
        ensures
            d == self.direction_spec(),
    {
        self.direction
    }

    /// Export the child handle as an environment-variable or argument capable encoded string.
    /// This will format it like `FD_NUMBER:0xHANDLE_ADDRESS;`, looking something like:
    /// `1:0x1f4;`
    pub fn as_env_val(&self) -> (r: Option<Vec<u16>>)
        ensures
            self.child_spec() is Some <==> r is Some,
            r matches Some(units) ==> units@ == env_val_units(
                self.fd_spec(),
                self.child_spec()->Some_0,
            ),
    {
        match self.child_handle {
            None => None,
            Some(h) => {
                let mut ret: Vec<u16> = Vec::new();
                push_number(&mut ret, self.fd as usize, 10);
                ret.push(0x3a);
                ret.push(0x30);
                ret.push(0x78);
                push_number(&mut ret, h, 16);
                ret.push(0x3b);
                assert(ret@ =~= env_val_units(self.fd, h));
                Some(ret)
            },
        }
    }

    pub fn child(&self) -> (h: Option<usize>)
        ensures
            h == self.child_spec(),
    {
        self.child_handle
    }

    /// Takes the parent handle as a stream reader.  The parent's end is given
    /// up in any case; it is handed out where the data flows from the child.
    pub fn as_reader(&mut self) -> (r: Option<usize>)
        ensures
            final(self).parent_spec() is None,
            final(self).fd_spec() == old(self).fd_spec(),
            final(self).direction_spec() == old(self).direction_spec(),
            final(self).child_spec() == old(self).child_spec(),
            r == (if old(self).direction_spec() == StreamDirection::FromChild {
                old(self).parent_spec()
            } else {
                None
            }),
    {
        let handle = match self.parent_handle.take() {
            None => {
                return None;
            },
            Some(e) => e,
        };
        match self.direction {
            StreamDirection::ToChild => None,
            StreamDirection::FromChild => Some(handle),
        }
    }

    /// Takes the parent handle as a stream writer.  The parent's end is given
    /// up in any case; it is handed out where the data flows to the child.
    pub fn as_writer(&mut self) -> (r: Option<usize>)
        ensures
            final(self).parent_spec() is None,
            final(self).fd_spec() == old(self).fd_spec(),
            final(self).direction_spec() == old(self).direction_spec(),
            final(self).child_spec() == old(self).child_spec(),
            r == (if old(self).direction_spec() == StreamDirection::ToChild {
                old(self).parent_spec()
            } else {
                None
            }),
    {
        let handle = match self.parent_handle.take() {
            None => {
                return None;
            },
            Some(e) => e,
        };
        match self.direction {
            StreamDirection::FromChild => None,
            StreamDirection::ToChild => Some(handle),
        }
    }

    /// Gives up the ends that are still held, for the caller to close: the
    /// parent's first.  Afterwards nothing is held, so that no handle is
    /// closed twice.
    pub fn release(&mut self) -> (handles: Vec<usize>)
        ensures
            final(self).parent_spec() is None,
            final(self).child_spec() is None,
            handles@ == (match old(self).parent_spec() {
                Some(h) => seq![h],
                None => Seq::<usize>::empty(),
            }) + (match old(self).child_spec() {
                Some(h) => seq![h],
                None => Seq::<usize>::empty(),
            }),
    {
        let mut handles: Vec<usize> = Vec::new();
        match self.parent_handle.take() {
            None => (),
            Some(h) => {
                handles.push(h);
            },
        };
        match self.child_handle.take() {
            None => (),
            Some(h) => {
                handles.push(h);
            },
        };
        assert(handles@ =~= (match old(self).parent_spec() {
            Some(h) => seq![h],
            None => Seq::<usize>::empty(),
        }) + (match old(self).child_spec() {
            Some(h) => seq![h],
            None => Seq::<usize>::empty(),
        }));
        handles
    }
}

/// What a standard stream comes to, from what was asked for it and the
/// handles that were made.
pub open spec fn std_fd(fd: u32, wanted: StdIo, made: StdIoHandles) -> Option<StdIoFd> {
    match (wanted, made) {
        (StdIo::Unused, _) => Some(StdIoFd::Unused),
        (StdIo::Pipe, StdIoHandles::Pipe(read, write)) => Some(
            StdIoFd::Pipe(
                WinFd {
                    fd,
                    direction: std_direction(fd)->Some_0,
                    parent_handle: Some(if fd == 0 {
                        write
                    } else {
                        read
                    }),
                    child_handle: Some(if fd == 0 {
                        read
                    } else {
                        write
                    }),
                },
            ),
        ),
        (StdIo::PassThrough, StdIoHandles::Duplicate(h)) => Some(
            StdIoFd::Pipe(
                WinFd {
                    fd,
                    direction: std_direction(fd)->Some_0,
                    parent_handle: None,
                    child_handle: Some(h),
                },
            ),
        ),
        _ => None,
    }
}

/// One standard stream, from what was asked for it and the handles that were
/// made for it.
fn std_io_fd(fd: u32, wanted: StdIo, made: StdIoHandles) -> (r: Result<
    StdIoFd,
    WindowsSandboxError,
>)
    requires
        fd <= 2,
    ensures
        std_fd(fd, wanted, made) is Some <==> r is Ok,
        r matches Ok(io) ==> Some(io) == std_fd(fd, wanted, made),
        r matches Err(e) ==> e matches WindowsSandboxError::Sandbox(SandboxError::JailSetup(m))
            && m@ == "handles do not match the standard stream"@,
{
    let direction = if fd == 0 {
        StreamDirection::ToChild
    } else {
        StreamDirection::FromChild
    };
    match wanted {
        StdIo::Unused => Ok(StdIoFd::Unused),
        StdIo::Pipe => match made {
            StdIoHandles::Pipe(read, write) => Ok(
                StdIoFd::Pipe(WinFd::new(fd, direction, read, write)),
            ),
            _ => Err(WindowsSandboxError::setup_message("handles do not match the standard stream")),
        },
        StdIo::PassThrough => match made {
            StdIoHandles::Duplicate(h) => Ok(
                StdIoFd::Pipe(
                    WinFd { fd, direction, parent_handle: None, child_handle: Some(h) },
                ),
            ),
            _ => Err(WindowsSandboxError::setup_message("handles do not match the standard stream")),
        },
    }
}

impl WinFdSet {
    pub closed spec fn stdin_spec(&self) -> StdIoFd {
        self.stdin
    }

    pub closed spec fn stdout_spec(&self) -> StdIoFd {
        self.stdout
    }

    pub closed spec fn stderr_spec(&self) -> StdIoFd {
        self.stderr
    }

    pub closed spec fn others_spec(&self) -> Seq<WinFd> {
        self.others@
    }

    /// The standard streams flow the way their numbers say: to the child on
    /// 0, from the child on 1 and 2.
    #[verifier::type_invariant]
    pub closed spec fn directions_fit(self) -> bool {
        &&& self.stdin matches StdIoFd::Pipe(w) ==> w.direction == StreamDirection::ToChild
        &&& self.stdout matches StdIoFd::Pipe(w) ==> w.direction == StreamDirection::FromChild
        &&& self.stderr matches StdIoFd::Pipe(w) ==> w.direction == StreamDirection::FromChild
    }

    /// The descriptors of a child: the standard streams, each from what was
    /// asked for it and the handles that were made for it, and the others.
    /// Handles that do not fit what was asked for are refused.
    pub fn new(
        stdio: StdIoSet,
        stdin: StdIoHandles,
        stdout: StdIoHandles,
        stderr: StdIoHandles,
        others: Vec<WinFd>,
    ) -> (r: Result<WinFdSet, WindowsSandboxError>)
        ensures
            (std_fd(0, stdio.stdin, stdin) is Some && std_fd(1, stdio.stdout, stdout) is Some
                && std_fd(2, stdio.stderr, stderr) is Some) <==> r is Ok,
            r matches Ok(set) ==> {
                &&& Some(set.stdin_spec()) == std_fd(0, stdio.stdin, stdin)
                &&& Some(set.stdout_spec()) == std_fd(1, stdio.stdout, stdout)
                &&& Some(set.stderr_spec()) == std_fd(2, stdio.stderr, stderr)
                &&& set.others_spec() == others@
            },
    {
        let stdin = std_io_fd(0, stdio.stdin, stdin)?;
        let stdout = std_io_fd(1, stdio.stdout, stdout)?;
        let stderr = std_io_fd(2, stdio.stderr, stderr)?;
        Ok(WinFdSet { stdin, stdout, stderr, others })
    }

    pub fn stdin(&self) -> (io: StdIoFd)
        ensures
            io == self.stdin_spec(),
            io matches StdIoFd::Pipe(w) ==> w.direction_spec() == StreamDirection::ToChild,
    {
        proof {
            use_type_invariant(self);
        }
        self.stdin
    }

    pub fn stdout(&self) -> (io: StdIoFd)
        ensures
            io == self.stdout_spec(),
            io matches StdIoFd::Pipe(w) ==> w.direction_spec() == StreamDirection::FromChild,
    {
        proof {
            use_type_invariant(self);
        }
        self.stdout
    }

    pub fn stderr(&self) -> (io: StdIoFd)
        ensures
            io == self.stderr_spec(),
            io matches StdIoFd::Pipe(w) ==> w.direction_spec() == StreamDirection::FromChild,
    {
        proof {
            use_type_invariant(self);
        }
        self.stderr
    }

    pub fn others(&self) -> (list: &Vec<WinFd>)
        ensures
            list@ == self.others_spec(),
    {
        &self.others
    }
}

} // verus!
