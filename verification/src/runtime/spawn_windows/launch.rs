//! Run the process in such a way that it can used by the spawn handler.
//!
//! The standard streams of the child are the logical descriptors 0, 1 and 2;
//! any other descriptor is a pipe whose handle the child is told through the
//! environment.

use super::conv::{append_units, wide, wide_text};
use super::environ::{any_pair_has_nul, unique_ignoring_case};
use super::fd::{
    env_val_units, StdIo, StdIoFd, StdIoSet, StreamDirection, WinFd, WinFdSet,
};
use super::launch_quote::{
    any_has_nul, check_environment, check_unique_keys, command_line, is_nul_error,
    is_twice_error, quote_arguments, NUL,
};
use super::monitor::{exit_status, exit_status_of, MonitorFailure, ProcessInfo, ProcessState};
use crate::runtime::error::SandboxError;
use crate::runtime::spawn::{unique_fds, Child, Fd, FdMode, FdSet, StreamSlot};
use std::collections::HashMap;
use vstd::prelude::*;
use vstd::string::StringExecFns;

verus! {

broadcast use vstd::std_specs::hash::group_hash_axioms;

/// Why a request for descriptors cannot be served.
#[derive(Debug, Clone, Copy, PartialEq, Eq, Structural)]
pub enum FdFault {
    /// Descriptor 0 is marked as read from the child.
    StdinFromChild,
    /// Descriptor 1 is marked as written to the child.
    StdoutToChild,
    /// Descriptor 2 is marked as written to the child.
    StderrToChild,
    /// A descriptor other than 0, 1, 2 is to be kept from the parent.
    PassThroughOther,
}

/// What a request for descriptors asks for: what becomes of the three
/// standard streams, and the pipes for the other descriptors.
pub struct FdRequest {
    pub stdin: StdIo,
    pub stdout: StdIo,
    pub stderr: StdIo,
    pub others: Seq<(u32, StreamDirection)>,
}

/// What a request asks for: the pipes that have to be made beside the
/// standard streams, and what becomes of the standard streams.
pub struct FdPlan {
    pub stdio: StdIoSet,
    pub others: Vec<(u32, StreamDirection)>,
}

/// What is asked for when one more descriptor is added to a request.
pub open spec fn request_with(request: FdRequest, fd: Fd) -> Result<FdRequest, FdFault> {
    if fd.fd == 0 {
        match fd.mode {
            FdMode::FromChild => Err(FdFault::StdinFromChild),
            FdMode::Null => Ok(FdRequest { stdin: StdIo::Unused, ..request }),
            FdMode::KeepInChild => Ok(FdRequest { stdin: StdIo::PassThrough, ..request }),
            FdMode::ToChild => Ok(FdRequest { stdin: StdIo::Pipe, ..request }),
        }
    } else if fd.fd == 1 {
        match fd.mode {
            FdMode::FromChild => Ok(FdRequest { stdout: StdIo::Pipe, ..request }),
            FdMode::Null => Ok(FdRequest { stdout: StdIo::Unused, ..request }),
            FdMode::KeepInChild => Ok(FdRequest { stdout: StdIo::PassThrough, ..request }),
            FdMode::ToChild => Err(FdFault::StdoutToChild),
        }
    } else if fd.fd == 2 {
        match fd.mode {
            FdMode::FromChild => Ok(FdRequest { stderr: StdIo::Pipe, ..request }),
            FdMode::Null => Ok(FdRequest { stderr: StdIo::Unused, ..request }),
            FdMode::KeepInChild => Ok(FdRequest { stderr: StdIo::PassThrough, ..request }),
            FdMode::ToChild => Err(FdFault::StderrToChild),
        }
    } else {
        match fd.mode {
            FdMode::Null => Ok(request),
            FdMode::KeepInChild => Err(FdFault::PassThroughOther),
            FdMode::ToChild => Ok(
                FdRequest {
                    others: request.others.push((fd.fd, StreamDirection::ToChild)),
                    ..request
                },
            ),
            FdMode::FromChild => Ok(
                FdRequest {
                    others: request.others.push((fd.fd, StreamDirection::FromChild)),
                    ..request
                },
            ),
        }
    }
}

/// What a list of descriptors asks for; the first entry that cannot be served
/// decides.
pub open spec fn request_of(fds: Seq<Fd>) -> Result<FdRequest, FdFault>
    decreases fds.len(),
{
    if fds.len() == 0 {
        Ok(
            FdRequest {
                stdin: StdIo::Unused,
                stdout: StdIo::Unused,
                stderr: StdIo::Unused,
                others: Seq::empty(),
            },
        )
    } else {
        match request_of(fds.drop_last()) {
            Err(fault) => Err(fault),
            Ok(request) => request_with(request, fds.last()),
        }
    }
}

/// The words for a request that cannot be served.
pub open spec fn fault_message(fault: FdFault) -> Seq<char> {
    match fault {
        FdFault::StdinFromChild => "stdio marked as read from child"@,
        FdFault::StdoutToChild => "stdout marked as write to child"@,
        FdFault::StderrToChild => "stdout marked as write to child"@,
        FdFault::PassThroughOther => "windows cannot pass-through arbitrary handles"@,
    }
}

impl FdPlan {
    /// The plan as a value.
    pub open spec fn view(&self) -> FdRequest {
        FdRequest {
            stdin: self.stdio.stdin,
            stdout: self.stdio.stdout,
            stderr: self.stdio.stderr,
            others: self.others@,
        }
    }
}

/// Sorts the descriptors of a request: the standard streams are piped, shared
/// with the parent or left out, and every other descriptor that is used gets a
/// pipe.  The standard input cannot flow from the child, nor the standard
/// output and error to it, and no other descriptor can be shared with the
/// parent.  A request that names a descriptor twice is refused before
/// anything else.
pub fn create_fds(src: &FdSet) -> (r: Result<FdPlan, SandboxError>)
    ensures
        (unique_fds(src@) && request_of(src@) is Ok) <==> r is Ok,
        r matches Ok(plan) ==> plan.view() == request_of(src@)->Ok_0,
        r matches Err(e) ==> e matches SandboxError::JailSetup(m) && m@ == (if !unique_fds(src@) {
            "a descriptor is named twice"@
        } else {
            fault_message(request_of(src@)->Err_0)
        }),
{
    if !src.is_unique() {
        return Err(SandboxError::JailSetup(String::from_str("a descriptor is named twice")));
    }
    let mut stdin = StdIo::Unused;
    let mut stdout = StdIo::Unused;
    let mut stderr = StdIo::Unused;
    let mut others: Vec<(u32, StreamDirection)> = Vec::new();
    let modes = src.modes();
    let mut i: usize = 0;
    proof {
        assert(modes@.take(0) =~= Seq::<Fd>::empty());
    }
    while i < modes.len()
        invariant
            i <= modes@.len(),
            modes@ == src@,
            unique_fds(src@),
            request_of(modes@.take(i as int)) == Ok::<FdRequest, FdFault>(
                FdRequest { stdin, stdout, stderr, others: others@ },
            ),
        decreases modes@.len() - i,
    {
        let fd = modes[i];
        proof {
            assert(modes@.take(i + 1).drop_last() =~= modes@.take(i as int));
            assert(modes@.take(i + 1).last() == fd);
            if request_of(modes@.take(i + 1)) is Err {
                lemma_fault_stays(modes@, i + 1);
            }
        }
        if fd.fd == 0 {
            stdin = match fd.mode {
                FdMode::FromChild => {
                    return Err(
                        SandboxError::JailSetup(
                            String::from_str("stdio marked as read from child"),
                        ),
                    );
                },
                FdMode::Null => StdIo::Unused,
                FdMode::KeepInChild => StdIo::PassThrough,
                FdMode::ToChild => StdIo::Pipe,
            };
        } else if fd.fd == 1 {
            stdout = match fd.mode {
                FdMode::FromChild => StdIo::Pipe,
                FdMode::Null => StdIo::Unused,
                FdMode::KeepInChild => StdIo::PassThrough,
                FdMode::ToChild => {
                    return Err(
                        SandboxError::JailSetup(
                            String::from_str("stdout marked as write to child"),
                        ),
                    );
                },
            };
        } else if fd.fd == 2 {
            stderr = match fd.mode {
                FdMode::FromChild => StdIo::Pipe,
                FdMode::Null => StdIo::Unused,
                FdMode::KeepInChild => StdIo::PassThrough,
                FdMode::ToChild => {
                    return Err(
                        SandboxError::JailSetup(
                            String::from_str("stdout marked as write to child"),
                        ),
                    );
                },
            };
        } else {
            match fd.mode {
                FdMode::Null => (),
                FdMode::KeepInChild => {
                    return Err(
                        SandboxError::JailSetup(
                            String::from_str("windows cannot pass-through arbitrary handles"),
                        ),
                    );
                },
                FdMode::ToChild => {
                    others.push((fd.fd, StreamDirection::ToChild));
                },
                FdMode::FromChild => {
                    others.push((fd.fd, StreamDirection::FromChild));
                },
            }
        }
        i += 1;
    }
    assert(modes@.take(i as int) =~= modes@);
    Ok(FdPlan { stdio: StdIoSet { stdin, stdout, stderr }, others })
}

/// A request that cannot be served stays so when more descriptors follow, and
/// for the same reason.
pub proof fn lemma_fault_stays(fds: Seq<Fd>, count: int)
    requires
        0 <= count <= fds.len(),
        request_of(fds.take(count)) is Err,
    ensures
        request_of(fds) == request_of(fds.take(count)),
    decreases fds.len() - count,
{
    if count < fds.len() {
        assert(fds.take(count + 1).drop_last() =~= fds.take(count));
        lemma_fault_stays(fds, count + 1);
    } else {
        assert(fds.take(count) =~= fds);
    }
}

/// The pipes for the descriptors beside the standard streams, from the plan
/// and the handles of the pipes that were made for it, one for each entry and
/// in the plan's order, each as its reading and its writing end.  Any other
/// number of pipes is refused.
pub fn other_fds(plan: &FdPlan, pipes: &Vec<(usize, usize)>) -> (r: Result<Vec<WinFd>, SandboxError>)
    ensures
        pipes@.len() == plan.others@.len() <==> r is Ok,
        r matches Ok(fds) ==> fds@.len() == plan.others@.len() && forall|k: int|
            0 <= k < fds@.len() ==> #[trigger] fds@[k] == (WinFd {
                fd: plan.others@[k].0,
                direction: plan.others@[k].1,
                parent_handle: Some(
                    if plan.others@[k].1 == StreamDirection::ToChild {
                        pipes@[k].1
                    } else {
                        pipes@[k].0
                    },
                ),
                child_handle: Some(
                    if plan.others@[k].1 == StreamDirection::ToChild {
                        pipes@[k].0
                    } else {
                        pipes@[k].1
                    },
                ),
            }),
        r matches Err(e) ==> e matches SandboxError::JailSetup(m) && m@
            == "problem setting up fd: pipes do not match"@,
{
    if pipes.len() != plan.others.len() {
        return Err(
            SandboxError::JailSetup(String::from_str("problem setting up fd: pipes do not match")),
        );
    }
    let mut fds: Vec<WinFd> = Vec::with_capacity(pipes.len());
    let mut i: usize = 0;
    while i < pipes.len()
        invariant
            i <= pipes@.len(),
            pipes@.len() == plan.others@.len(),
            fds@.len() == i,
            forall|k: int|
                0 <= k < i ==> #[trigger] fds@[k] == (WinFd {
                    fd: plan.others@[k].0,
                    direction: plan.others@[k].1,
                    parent_handle: Some(
                        if plan.others@[k].1 == StreamDirection::ToChild {
                            pipes@[k].1
                        } else {
                            pipes@[k].0
                        },
                    ),
                    child_handle: Some(
                        if plan.others@[k].1 == StreamDirection::ToChild {
                            pipes@[k].0
                        } else {
                            pipes@[k].1
                        },
                    ),
                }),
        decreases pipes@.len() - i,
    {
        let wanted = plan.others[i];
        let ends = pipes[i];
        fds.push(WinFd::new(wanted.0, wanted.1, ends.0, ends.1));
        i += 1;
    }
    Ok(fds)
}

/// The handles of the child's ends, as far as they are held.
pub open spec fn child_handles(fds: Seq<WinFd>) -> Seq<usize>
    decreases fds.len(),
{
    if fds.len() == 0 {
        Seq::empty()
    } else {
        match fds.last().child_handle {
            Some(h) => child_handles(fds.drop_last()).push(h),
            None => child_handles(fds.drop_last()),
        }
    }
}

/// What the child is told about its handles: an entry `FD:0xHANDLE;` for each
/// descriptor whose end is held.
pub open spec fn handles_value(fds: Seq<WinFd>) -> Seq<u16>
    decreases fds.len(),
{
    if fds.len() == 0 {
        Seq::empty()
    } else {
        match fds.last().child_handle {
            Some(h) => handles_value(fds.drop_last()) + env_val_units(fds.last().fd, h),
            None => handles_value(fds.drop_last()),
        }
    }
}

/// The handles that cross into the child beside the standard streams, and the
/// value of the variable that tells the child about them.
pub fn collect_handles(others: &Vec<WinFd>) -> (r: (Vec<usize>, Vec<u16>))
    ensures
        r.0@ == child_handles(others@),
        r.1@ == handles_value(others@),
{
    let mut handles: Vec<usize> = Vec::new();
    let mut env_handles: Vec<u16> = Vec::new();
    let mut i: usize = 0;
    assert(others@.take(0) =~= Seq::<WinFd>::empty());
    while i < others.len()
        invariant
            i <= others@.len(),
            handles@ == child_handles(others@.take(i as int)),
            env_handles@ == handles_value(others@.take(i as int)),
        decreases others@.len() - i,
    {
        let fd = &others[i];
        proof {
            assert(others@.take(i + 1).drop_last() =~= others@.take(i as int));
            assert(others@.take(i + 1).last() == *fd);
        }
        match fd.child() {
            None => (),
            Some(v) => {
                handles.push(v);
            },
        }
        match fd.as_env_val() {
            None => (),
            Some(v) => {
                append_units(&mut env_handles, &v);
            },
        }
        i += 1;
    }
    assert(others@.take(i as int) =~= others@);
    (handles, env_handles)
}

/// What the creation of the process is called with, as far as the request
/// decides it.
pub struct WindowsLaunch {
    /// The command line, with its NUL.
    pub cmdline: Vec<u16>,
    /// The environment of the child, with the variable for its handles.
    pub environ: Vec<(Vec<u16>, Vec<u16>)>,
    /// The handles that cross into the child beside the standard streams.
    pub handles: Vec<usize>,
    pub stdin: Option<usize>,
    pub stdout: Option<usize>,
    pub stderr: Option<usize>,
}

/// The handle that the child gets for a standard stream.
pub open spec fn std_child_handle(io: StdIoFd) -> Option<usize> {
    match io {
        StdIoFd::Unused => None,
        StdIoFd::Pipe(v) => v.child_handle,
    }
}

/// The name of the program as the child sees it: a placeholder, so that the
/// real path does not reach the child.
pub open spec fn placeholder_command() -> Seq<u16> {
    wide_text("command.com"@)
}

/// The name of the variable that tells the child about its handles.
pub open spec fn handle_variable() -> Seq<u16> {
    wide_text("SANDBOX_HANDLES"@)
}

/// Handle the child process launching: the command line, the environment and
/// the handles for a request, once its descriptors are made.
///
/// The command line names a placeholder as the program.  The environment gets
/// one more variable, `SANDBOX_HANDLES`, which lists the handles of the
/// descriptors beside the standard streams.  A NUL in an argument, a key or a
/// value is refused, and so is an environment that then names a variable
/// twice, letter case set aside.
pub fn launch_child(args: &Vec<Vec<u16>>, environ: Vec<(Vec<u16>, Vec<u16>)>, fds: &WinFdSet) -> (r:
    Result<WindowsLaunch, SandboxError>)
    ensures
        (!any_has_nul(args.deep_view()) && !any_pair_has_nul(
            environ.deep_view().push((handle_variable(), handles_value(fds.others_spec()))),
        ) && unique_ignoring_case(
            environ.deep_view().push((handle_variable(), handles_value(fds.others_spec()))),
        )) <==> r is Ok,
        r matches Ok(launch) ==> {
            &&& launch.cmdline@ == command_line(placeholder_command(), args.deep_view()).push(NUL)
            &&& launch.environ.deep_view() == environ.deep_view().push(
                (handle_variable(), handles_value(fds.others_spec())),
            )
            &&& launch.handles@ == child_handles(fds.others_spec())
            &&& launch.stdin == std_child_handle(fds.stdin_spec())
            &&& launch.stdout == std_child_handle(fds.stdout_spec())
            &&& launch.stderr == std_child_handle(fds.stderr_spec())
        },
        r matches Err(e) ==> if any_has_nul(args.deep_view()) || any_pair_has_nul(
            environ.deep_view().push((handle_variable(), handles_value(fds.others_spec()))),
        ) {
            is_nul_error(e)
        } else {
            is_twice_error(e)
        },
{
    proof {
        reveal_strlit("command.com");
        reveal_strlit("SANDBOX_HANDLES");
    }
    let command = wide("command.com");
    proof {
        assert forall|i: int| 0 <= i < command@.len() implies #[trigger] command@[i] != NUL by {}
    }
    // use a placeholder cmd name
    let cmdline = quote_arguments(&command, args)?;
    let (handles, env_handles) = collect_handles(fds.others());
    let ghost given = environ.deep_view();
    let mut environ = environ;
    environ.push((wide("SANDBOX_HANDLES"), env_handles));
    proof {
        assert(environ.deep_view() =~~= given.push(
            (handle_variable(), handles_value(fds.others_spec())),
        ));
    }
    check_environment(&environ)?;
    check_unique_keys(&environ)?;
    Ok(
        WindowsLaunch {
            cmdline,
            environ,
            handles,
            stdin: match fds.stdin() {
                StdIoFd::Unused => None,
                StdIoFd::Pipe(v) => v.child(),
            },
            stdout: match fds.stdout() {
                StdIoFd::Unused => None,
                StdIoFd::Pipe(v) => v.child(),
            },
            stderr: match fds.stderr() {
                StdIoFd::Unused => None,
                StdIoFd::Pipe(v) => v.child(),
            },
        },
    )
}

/// The launched process as the handler sees it.
pub struct WindowsChild {
    state: ProcessState,
    stdin: Option<StdIoFd>,
    stdout: Option<StdIoFd>,
    stderr: Option<StdIoFd>,
    others: HashMap<u32, WinFd>,
}

/// The parent's end of a descriptor as a slot of the handler's protocol, as
/// long as the end is held.
pub open spec fn winfd_slot(w: WinFd) -> Option<StreamSlot<usize>> {
    match w.parent_handle {
        Some(h) => Some(StreamSlot { to_child: w.direction == StreamDirection::ToChild, end: h }),
        None => None,
    }
}

/// The parent's end of a standard stream as a slot of the handler's protocol.
pub open spec fn stdio_slot(io: Option<StdIoFd>) -> Option<StreamSlot<usize>> {
    match io {
        Some(StdIoFd::Pipe(w)) => winfd_slot(w),
        _ => None,
    }
}

/// The descriptors beside the standard streams by their numbers.  Of two for
/// one number the later one stays.
pub open spec fn others_map(fds: Seq<WinFd>) -> Map<u32, WinFd>
    decreases fds.len(),
{
    if fds.len() == 0 {
        Map::empty()
    } else {
        others_map(fds.drop_last()).insert(fds.last().fd, fds.last())
    }
}

/// A slot, where it flows the way given.
pub open spec fn flowing(slot: Option<StreamSlot<usize>>, to_child: bool) -> Option<
    StreamSlot<usize>,
> {
    match slot {
        Some(s) => if s.to_child == to_child {
            Some(s)
        } else {
            None
        },
        None => None,
    }
}

impl WindowsChild {
    /// What is known of the process's life.
    pub closed spec fn monitor(&self) -> ProcessState {
        self.state
    }

    /// The stream that is to be had under a descriptor: a standard stream
    /// under 0, 1 and 2, where it flows the way that its number says, and one
    /// of the others elsewhere.
    pub closed spec fn slot_at(&self, fd: u32) -> Option<StreamSlot<usize>> {
        if fd == 0 {
            flowing(stdio_slot(self.stdin), true)
        } else if fd == 1 {
            flowing(stdio_slot(self.stdout), false)
        } else if fd == 2 {
            flowing(stdio_slot(self.stderr), false)
        } else if self.others@.contains_key(fd) {
            winfd_slot(self.others@[fd])
        } else {
            None
        }
    }

    /// The process that was created, with its descriptors.
    pub fn new(proc: ProcessInfo, fds: WinFdSet) -> (child: WindowsChild)
        ensures
            child.monitor() == (ProcessState { terminated: false, exit_code: None, info: proc }),
            child.slot_at(0) == stdio_slot(Some(fds.stdin_spec())),
            child.slot_at(1) == stdio_slot(Some(fds.stdout_spec())),
            child.slot_at(2) == stdio_slot(Some(fds.stderr_spec())),
            forall|fd: u32|
                fd > 2 ==> #[trigger] child.slot_at(fd) == (if others_map(
                    fds.others_spec(),
                ).contains_key(fd) {
                    winfd_slot(others_map(fds.others_spec())[fd])
                } else {
                    None
                }),
    {
        let mut others: HashMap<u32, WinFd> = HashMap::new();
        let list = fds.others();
        let mut i: usize = 0;
        assert(list@.take(0) =~= Seq::<WinFd>::empty());
        while i < list.len()
            invariant
                i <= list@.len(),
                others@ == others_map(list@.take(i as int)),
            decreases list@.len() - i,
        {
            let fd = list[i];
            others.insert(fd.fd(), fd);
            i += 1;
            assert(list@.take(i as int).drop_last() =~= list@.take(i - 1));
        }
        assert(list@.take(i as int) =~= list@);
        WindowsChild {
            state: ProcessState::new(proc),
            stdin: Some(fds.stdin()),
            stdout: Some(fds.stdout()),
            stderr: Some(fds.stderr()),
            others,
        }
    }

    /// What is known of the process's life, for whoever supervises the
    /// process beside the handler.
    pub fn state(&self) -> (state: ProcessState)
        ensures
            state == self.monitor(),
    {
        self.state
    }
}

impl Child for WindowsChild {
    type Stream = usize;

    type Attempt = Result<(), i32>;

    type Waited = Option<Result<u32, i32>>;

    type Failure = MonitorFailure;

    open spec fn slots(&self) -> Map<u32, StreamSlot<usize>> {
        Map::new(|fd: u32| self.slot_at(fd) is Some, |fd: u32| self.slot_at(fd)->Some_0)
    }

    open spec fn known_exit(&self) -> Option<i32> {
        match self.monitor().exit_code {
            Some(code) => Some(exit_status_of(code)),
            None => None,
        }
    }

    open spec fn ended(&self) -> bool {
        self.monitor().terminated
    }

    /// Request a hard termination of the child process; see
    /// [`ProcessState::terminate`].  `job_terminated` tells how the
    /// termination of the job went.
    fn terminate(&mut self, job_terminated: Option<Result<(), i32>>) -> (r: Result<
        (),
        MonitorFailure,
    >)
        ensures
            (final(self).monitor(), r) == old(self).monitor().after_terminate(job_terminated),
    {
        let r = self.state.terminate(job_terminated);
        proof {
            assert(self.slots() =~= old(self).slots());
        }
        r
    }

    /// Get the current exit status for the child process, or `None` while it
    /// runs or cannot be asked; see [`ProcessState::exit_code`].  `queried`
    /// tells what the system said of the exit code, where it was asked.
    fn exit_status(&mut self, queried: Option<Result<u32, i32>>) -> (r: Option<i32>)
        ensures
            final(self).monitor() == old(self).monitor().after_query(queried).0,
            r == (match old(self).monitor().after_query(queried).1 {
                Ok(Some(code)) => Some(exit_status_of(code)),
                _ => None,
            }),
    {
        let r = match self.state.exit_code(queried) {
            Ok(Some(c)) => Some(exit_status(c)),
            Ok(None) => None,
            Err(_) => None,
        };
        proof {
            assert(self.slots() =~= old(self).slots());
        }
        r
    }

    /// The parent's end of the pipe that the child writes to under `fd`.  The
    /// standard input is never handed out here, and stays.  Any other stream
    /// is gone afterwards, also where it flows the other way and is not handed
    /// out.
    fn take_stream_from_child(&mut self, fd: u32) -> (r: Option<usize>)
        ensures
            final(self).monitor() == old(self).monitor(),
            final(self).slots() == (if fd == 0 {
                old(self).slots()
            } else {
                old(self).slots().remove(fd)
            }),
    {
        let r = if fd == 0 {
            // stdin is a parent writer, not a reader.
            None
        } else if fd == 1 {
            let taken = self.stdout;
            self.stdout = None;
            match taken {
                None => None,
                Some(s) => match s {
                    StdIoFd::Unused => None,
                    StdIoFd::Pipe(mut v) => v.as_reader(),
                },
            }
        } else if fd == 2 {
            let taken = self.stderr;
            self.stderr = None;
            match taken {
                None => None,
                Some(s) => match s {
                    StdIoFd::Unused => None,
                    StdIoFd::Pipe(mut v) => v.as_reader(),
                },
            }
        } else {
            match self.others.remove(&fd) {
                None => None,
                Some(mut v) => v.as_reader(),
            }
        };
        proof {
            if fd == 0 {
                assert(self.slots() =~= old(self).slots());
            } else {
                assert(self.slots() =~= old(self).slots().remove(fd));
            }
        }
        r
    }

    /// The parent's end of the pipe that the child reads from under `fd`.  The
    /// standard output and error are never handed out here, and stay.  Any
    /// other stream is gone afterwards, also where it flows the other way and
    /// is not handed out.
    fn take_stream_to_child(&mut self, fd: u32) -> (r: Option<usize>)
        ensures
            final(self).monitor() == old(self).monitor(),
            final(self).slots() == (if fd == 1 || fd == 2 {
                old(self).slots()
            } else {
                old(self).slots().remove(fd)
            }),
    {
        let r = if fd == 0 {
            let taken = self.stdin;
            self.stdin = None;
            match taken {
                None => None,
                Some(s) => match s {
                    StdIoFd::Unused => None,
                    StdIoFd::Pipe(mut v) => v.as_writer(),
                },
            }
        } else if fd == 1 {
            // stdout is a parent reader, not writer
            None
        } else if fd == 2 {
            // stderr is a parent reader, not writer
            None
        } else {
            match self.others.remove(&fd) {
                None => None,
                Some(mut v) => v.as_writer(),
            }
        };
        proof {
            if fd == 1 || fd == 2 {
                assert(self.slots() =~= old(self).slots());
            } else {
                assert(self.slots() =~= old(self).slots().remove(fd));
            }
        }
        r
    }
}

} // verus!
