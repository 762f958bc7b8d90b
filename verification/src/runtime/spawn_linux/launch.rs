//! Launch the child process.
//!
//! As much as possible is settled before the fork: in a multithreaded program
//! the forked child may only do what is safe inside a signal handler until it
//! runs the program, and that leaves out allocating memory.  So the strings for
//! the program, its arguments and its environment, the descriptors and the
//! jail are all made ready here, in the parent.

use super::dependencies::{
    dependency_views, find_bin_dependencies, library_dependencies, Dependency, DependencyTree,
    DependencyView,
};
use super::fd::{
    fork_maps, kept_fds, parent_share, pipes_wanted, wants_pipe, wire, FdForkMap, FdMap, ForkedFd,
    PipeEnds, StreamDirection,
};
use super::jail::{
    fs_all_bits, fs_read_bits, net_all_bits, new_sandbox, JailPolicy, LandlockJail, ABI_LATEST,
    ABI_MIN,
};
use crate::runtime::bytes::{contains_nul, copy_bytes, has_nul_byte, utf8_lossy, utf8_lossy_text};
use crate::runtime::error::{IoError, IoErrorKind, SandboxError};
use crate::runtime::spawn::{
    is_named_twice, unique_fds, Child, Fd, FdMode, FdSet, LaunchEnv, StreamSlot,
};
use std::collections::HashMap;
use vstd::prelude::*;
use vstd::string::StringExecFns;

verus! {

broadcast use vstd::std_specs::hash::group_hash_axioms;

/// True where some dependency is required and not resolved.
pub open spec fn has_invalid(deps: Seq<DependencyView>) -> bool {
    exists|i: int| 0 <= i < deps.len() && (#[trigger] deps[i]).invalid()
}

/// The files that the child may read: the best path of every dependency that
/// is resolved, in the order of the dependencies.
pub open spec fn allow_list(deps: Seq<DependencyView>) -> Seq<Seq<u8>>
    decreases deps.len(),
{
    if deps.len() == 0 {
        Seq::empty()
    } else if deps.last().realpath is Some {
        allow_list(deps.drop_last()).push(deps.last().best_path())
    } else {
        allow_list(deps.drop_last())
    }
}

/// The names of the dependencies that are required and not resolved, with a
/// comma and a space between two of them.
pub open spec fn missing_names(deps: Seq<DependencyView>) -> Seq<char>
    decreases deps.len(),
{
    if deps.len() == 0 {
        Seq::empty()
    } else if deps.last().invalid() {
        if has_invalid(deps.drop_last()) {
            missing_names(deps.drop_last()) + ", "@ + utf8_lossy_text(deps.last().best_path())
        } else {
            utf8_lossy_text(deps.last().best_path())
        }
    } else {
        missing_names(deps.drop_last())
    }
}

/// The files to put on the read allow-list for a set of dependencies.  A
/// dependency that is required and could not be resolved makes the launch
/// impossible; the error names every one of them.  One that is optional and
/// could not be resolved is left out.
pub fn extract_dependencies(deps: Vec<Dependency>) -> (r: Result<Vec<Vec<u8>>, SandboxError>)
    ensures
        has_invalid(dependency_views(deps@)) <==> r is Err,
        r matches Ok(paths) ==> paths.deep_view() == allow_list(dependency_views(deps@)),
        r matches Err(e) ==> e matches SandboxError::JailSetup(m) && m@
            == "missing library dependencies: "@ + missing_names(dependency_views(deps@)),
{
    let ghost views = dependency_views(deps@);
    let mut is_ok = true;
    let mut missing = String::new();
    let mut ret: Vec<Vec<u8>> = Vec::new();
    let mut i: usize = 0;
    proof {
        assert(views.take(0) =~= Seq::<DependencyView>::empty());
        assert(ret.deep_view() =~= allow_list(views.take(0)));
    }
    while i < deps.len()
        invariant
            i <= deps@.len(),
            views == dependency_views(deps@),
            is_ok == !has_invalid(views.take(i as int)),
            is_ok ==> ret.deep_view() == allow_list(views.take(i as int)),
            is_ok ==> missing@ == Seq::<char>::empty(),
            !is_ok ==> missing@ == missing_names(views.take(i as int)),
        decreases deps@.len() - i,
    {
        let dep = &deps[i];
        let ghost before = views.take(i as int);
        let ghost now = views.take(i + 1);
        proof {
            assert(now.drop_last() =~= before);
            assert(now.last() == dep@);
            assert(has_invalid(now) <==> (has_invalid(before) || dep@.invalid())) by {
                if has_invalid(now) {
                    let k = choose|k: int| 0 <= k < now.len() && (#[trigger] now[k]).invalid();
                    if k < i {
                        assert(before[k].invalid());
                    }
                }
                if has_invalid(before) {
                    let k = choose|k: int|
                        0 <= k < before.len() && (#[trigger] before[k]).invalid();
                    assert(now[k].invalid());
                }
                if dep@.invalid() {
                    assert(now[i as int].invalid());
                }
            }
        }
        if dep.invalid() {
            if is_ok {
                is_ok = false;
            } else {
                missing.append(", ");
            }
            let name = utf8_lossy(dep.best_path());
            missing.append(name.as_str());
            proof {
                assert(missing@ =~= missing_names(now));
            }
        } else if dep.exists_on_disk() {
            let ghost ret_before = ret.deep_view();
            ret.push(copy_bytes(dep.best_path()));
            proof {
                assert(ret.deep_view() =~~= ret_before.push(dep@.best_path()));
            }
        }  // else ignore

        i += 1;
    }
    assert(views.take(i as int) =~= views);
    if is_ok {
        Ok(ret)
    } else {
        let mut message = String::from_str("missing library dependencies: ");
        message.append(missing.as_str());
        Err(SandboxError::JailSetup(message))
    }
}

/// What the file system and the analysis of the executable said about a
/// command: where the search path holds it, the absolute form of that path,
/// whether the path leads to a file, and the dependency graph of the file.
pub struct LaunchProbe {
    /// The executable that the search path holds for the command.
    pub resolved: Option<Vec<u8>>,
    /// The absolute form of the resolved path, where it can be had.
    pub absolute: Option<Vec<u8>>,
    /// Whether the resolved path leads to something.
    pub found: bool,
    /// The dependency graph of the executable, where the analysis gave one.
    pub tree: Option<DependencyTree>,
}

/// The dependencies that a probe stands for: the executable, required, and its
/// libraries.
pub open spec fn probed_dependencies(probe: LaunchProbe) -> Seq<DependencyView>
    recommends
        probe.resolved is Some,
{
    let exec = DependencyView {
        path: probe.resolved->Some_0@,
        realpath: if probe.found {
            match probe.absolute {
                Some(p) => Some(p@),
                None => None,
            }
        } else {
            None
        },
        required: true,
    };
    if exec.realpath is None {
        seq![exec]
    } else {
        match probe.tree {
            None => seq![exec],
            Some(t) => seq![exec] + library_dependencies(t, t.libraries@.len() as int),
        }
    }
}

/// The program to run and the jail to run it in, from what was found out
/// about the command.
///
/// A command that the search path does not hold is an I/O failure.  An
/// executable that does not exist, or a library that is required and cannot be
/// found, is a failure to set up the jail.  In each of these cases there is no
/// jail, and so nothing that a child could be started with.
pub fn prepare_jail(probe: LaunchProbe) -> (r: Result<(Vec<u8>, JailPolicy), SandboxError>)
    ensures
        (probe.resolved is Some && !has_invalid(probed_dependencies(probe))) <==> r is Ok,
        r matches Ok((exec_path, policy)) ==> {
            &&& exec_path@ == probe.resolved->Some_0@
            &&& policy.allowed_read_paths.deep_view() == allow_list(probed_dependencies(probe))
            &&& policy.handled_fs == fs_all_bits(ABI_MIN as int)
            &&& policy.handled_net == net_all_bits(ABI_LATEST as int)
            &&& policy.scope_abstract_unix_socket && policy.scope_signal
            &&& policy.allowed_fs == fs_read_bits(ABI_MIN as int)
        },
        r matches Err(e) ==> if probe.resolved is None {
            e matches SandboxError::Io(io) && io.kind == IoErrorKind::NotFound && io.message@
                == "cannot find binary path"@
        } else {
            e matches SandboxError::JailSetup(m) && m@ == "missing library dependencies: "@
                + missing_names(probed_dependencies(probe))
        },
        probe.resolved is Some && !(probe.found && probe.absolute is Some) ==> r is Err,
{
    let exec_path = match probe.resolved {
        Some(p) => p,
        None => {
            return Err(SandboxError::not_found("cannot find binary path"));
        },
    };
    let exec_dep = Dependency::from_path(&exec_path, probe.absolute, probe.found, true);
    let deps = find_bin_dependencies(exec_dep, probe.tree);
    proof {
        assert(dependency_views(deps@) =~= probed_dependencies(probe));
        if !(probe.found && probe.absolute is Some) {
            assert(probed_dependencies(probe)[0].invalid());
        }
    }
    let allowed = extract_dependencies(deps)?;
    let policy = new_sandbox(&allowed);
    Ok((exec_path, policy))
}

/// The name that the child sees as its own: a fixed one, so that nothing
/// about the real path leaks into the child.
pub open spec fn argv0() -> Seq<u8> {
    seq![0x73u8, 0x61u8, 0x6eu8, 0x64u8, 0x62u8, 0x6fu8, 0x78u8, 0x65u8, 0x64u8]
}

/// A string with its NUL terminator.
pub open spec fn c_string_of(bytes: Seq<u8>) -> Seq<u8> {
    bytes.push(0u8)
}

/// The argument vector of the child: the fixed name, then each argument.
pub open spec fn argv_of(args: Seq<Seq<u8>>) -> Seq<Seq<u8>> {
    seq![c_string_of(argv0())] + Seq::new(args.len(), |i: int| c_string_of(args[i]))
}

/// The environment of the child: `KEY=VALUE` for each variable.
pub open spec fn envp_of(env: Seq<(Seq<u8>, Seq<u8>)>) -> Seq<Seq<u8>> {
    Seq::new(env.len(), |i: int| c_string_of(env[i].0 + seq![0x3du8] + env[i].1))
}

/// True where some string of the list holds a NUL.
pub open spec fn any_has_nul_byte(list: Seq<Seq<u8>>) -> bool {
    exists|i: int| 0 <= i < list.len() && has_nul_byte(#[trigger] list[i])
}

/// True where the key or the value of some variable holds a NUL.
pub open spec fn env_has_nul_byte(env: Seq<(Seq<u8>, Seq<u8>)>) -> bool {
    exists|i: int|
        0 <= i < env.len() && (has_nul_byte((#[trigger] env[i]).0) || has_nul_byte(env[i].1))
}

/// True for the error that a NUL inside a string gives.
pub open spec fn is_nul_failure(e: SandboxError) -> bool {
    e matches SandboxError::Io(io) && io.kind == IoErrorKind::InvalidFilename && io.message@
        == "nul byte found in provided data"@
}

/// The string with a NUL terminator, as the system calls want it.  A NUL
/// inside the string is refused.
pub fn c_string(bytes: &Vec<u8>) -> (r: Result<Vec<u8>, SandboxError>)
    ensures
        has_nul_byte(bytes@) <==> r is Err,
        r matches Ok(s) ==> s@ == c_string_of(bytes@),
        r matches Err(e) ==> is_nul_failure(e),
{
    if contains_nul(bytes) {
        return Err(SandboxError::interior_nul());
    }
    let mut s = copy_bytes(bytes);
    s.push(0);
    Ok(s)
}

/// The strings that the child hands to the system when it runs the program,
/// each with its NUL terminator.
pub struct ExecImage {
    pub exec_path: Vec<u8>,
    pub cwd: Vec<u8>,
    pub argv: Vec<Vec<u8>>,
    pub envp: Vec<Vec<u8>>,
}

/// Everything that has to exist before the fork.
pub struct LaunchPlan {
    pub image: ExecImage,
    pub sandbox: LandlockJail,
    pub fd_set: ForkedFd,
}

/// True where a launch request holds a NUL in a place where the system cannot
/// take one.
pub open spec fn request_has_nul(exec_path: Seq<u8>, env: LaunchEnv) -> bool {
    ||| has_nul_byte(exec_path)
    ||| has_nul_byte(env.cwd@)
    ||| any_has_nul_byte(env.args.deep_view())
    ||| env_has_nul_byte(env.env.deep_view())
}

/// The strings for the program, its directory, its arguments and its
/// environment.
fn exec_image(exec_path: &Vec<u8>, env: &LaunchEnv) -> (r: Result<ExecImage, SandboxError>)
    ensures
        request_has_nul(exec_path@, *env) <==> r is Err,
        r matches Ok(image) ==> {
            &&& image.exec_path@ == c_string_of(exec_path@)
            &&& image.cwd@ == c_string_of(env.cwd@)
            &&& image.argv.deep_view() == argv_of(env.args.deep_view())
            &&& image.envp.deep_view() == envp_of(env.env.deep_view())
        },
        r matches Err(e) ==> is_nul_failure(e),
{
    let path = c_string(exec_path)?;
    let cwd = c_string(&env.cwd)?;
    let mut argv: Vec<Vec<u8>> = Vec::new();
    // The first argument is the name of the program.  A fixed name is put
    // there, so that the path of the executable does not leak to the child.
    let mut name: Vec<u8> = Vec::new();
    name.push(0x73);
    name.push(0x61);
    name.push(0x6e);
    name.push(0x64);
    name.push(0x62);
    name.push(0x6f);
    name.push(0x78);
    name.push(0x65);
    name.push(0x64);
    assert(name@ =~= argv0());
    let first = c_string(&name)?;
    argv.push(first);
    let ghost args = env.args.deep_view();
    let mut i: usize = 0;
    while i < env.args.len()
        invariant
            i <= env.args@.len(),
            args == env.args.deep_view(),
            argv@.len() == i + 1,
            argv@[0]@ == c_string_of(argv0()),
            forall|k: int| 0 <= k < i ==> (#[trigger] argv@[k + 1])@ == c_string_of(args[k]),
            forall|k: int| 0 <= k < i ==> !has_nul_byte(#[trigger] args[k]),
        decreases env.args@.len() - i,
    {
        assert(args[i as int] == env.args@[i as int]@);
        let arg = match c_string(&env.args[i]) {
            Ok(c) => c,
            Err(e) => {
                proof {
                    assert(has_nul_byte(args[i as int]));
                    assert(any_has_nul_byte(args));
                }
                return Err(e);
            },
        };
        argv.push(arg);
        i += 1;
    }
    let ghost vars = env.env.deep_view();
    let mut envp: Vec<Vec<u8>> = Vec::new();
    let mut j: usize = 0;
    while j < env.env.len()
        invariant
            j <= env.env@.len(),
            vars == env.env.deep_view(),
            envp@.len() == j,
            forall|k: int|
                0 <= k < j ==> (#[trigger] envp@[k])@ == c_string_of(
                    vars[k].0 + seq![0x3du8] + vars[k].1,
                ),
            forall|k: int|
                0 <= k < j ==> !has_nul_byte((#[trigger] vars[k]).0) && !has_nul_byte(vars[k].1),
        decreases env.env@.len() - j,
    {
        assert(vars[j as int] == (env.env@[j as int].0@, env.env@[j as int].1@));
        let key = &env.env[j].0;
        let val = &env.env[j].1;
        let mut entry = copy_bytes(key);
        entry.push(0x3d);
        let mut k: usize = 0;
        while k < val.len()
            invariant
                k <= val@.len(),
                entry@ == key@.push(0x3du8) + val@.take(k as int),
            decreases val@.len() - k,
        {
            entry.push(val[k]);
            k += 1;
            assert(entry@ =~= key@.push(0x3du8) + val@.take(k as int));
        }
        proof {
            assert(val@.take(k as int) =~= val@);
            assert(entry@ =~= key@ + seq![0x3du8] + val@);
            lemma_entry_nul(key@, val@);
        }
        let c_entry = match c_string(&entry) {
            Ok(c) => c,
            Err(e) => {
                proof {
                    assert(vars.len() == env.env@.len());
                    assert(has_nul_byte(vars[j as int].0) || has_nul_byte(vars[j as int].1));
                    assert(env_has_nul_byte(vars));
                }
                return Err(e);
            },
        };
        envp.push(c_entry);
        j += 1;
    }
    proof {
        assert(argv.deep_view().len() == argv_of(args).len());
        assert forall|k: int| 0 <= k < argv@.len() implies #[trigger] argv.deep_view()[k]
            =~= argv_of(args)[k] by {
            if k > 0 {
                assert(argv@[(k - 1) + 1]@ == c_string_of(args[k - 1]));
            }
        }
        assert(argv.deep_view() =~~= argv_of(args));
        assert(envp.deep_view() =~~= envp_of(vars));
    }
    Ok(ExecImage { exec_path: path, cwd, argv, envp })
}

/// An entry of the environment holds a NUL exactly where its key or its value
/// does.
proof fn lemma_entry_nul(key: Seq<u8>, val: Seq<u8>)
    ensures
        has_nul_byte(key + seq![0x3du8] + val) <==> (has_nul_byte(key) || has_nul_byte(val)),
{
    let entry = key + seq![0x3du8] + val;
    if has_nul_byte(entry) {
        let i = choose|i: int| 0 <= i < entry.len() && #[trigger] entry[i] == 0;
        if i < key.len() {
            assert(key[i] == 0);
        } else {
            assert(val[i - key.len() - 1] == 0);
        }
    }
    if has_nul_byte(key) {
        let i = choose|i: int| 0 <= i < key.len() && #[trigger] key[i] == 0;
        assert(entry[i] == 0);
    }
    if has_nul_byte(val) {
        let i = choose|i: int| 0 <= i < val.len() && #[trigger] val[i] == 0;
        assert(entry[i + key.len() + 1] == 0);
    }
}

/// Handle the child process launching: everything that the fork needs, from
/// the request, the executable and the policy that [`prepare_jail`] gave, the
/// answer of the kernel to that policy, and the pipes that were made for the
/// request.
///
/// The launch is refused where the request names a descriptor or a variable
/// twice, where the kernel did not take the policy, where the pipes do not
/// fit the request, and where a string of the request holds a NUL.
pub fn launch_child(
    env: LaunchEnv,
    exec_path: Vec<u8>,
    policy: JailPolicy,
    armed: Result<(), String>,
    pipes: Vec<PipeEnds>,
) -> (r: Result<LaunchPlan, SandboxError>)
    ensures
        (env.well_formed() && armed is Ok && pipes@.len() == pipes_wanted(env.fds@)
            && !request_has_nul(exec_path@, env)) <==> r is Ok,
        r matches Ok(plan) ==> {
            &&& plan.sandbox.policy() == policy
            &&& plan.fd_set.maps() == fork_maps(env.fds@, pipes@)
            &&& plan.fd_set.keeps() == kept_fds(env.fds@)
            &&& plan.image.exec_path@ == c_string_of(exec_path@)
            &&& plan.image.cwd@ == c_string_of(env.cwd@)
            &&& plan.image.argv.deep_view() == argv_of(env.args.deep_view())
            &&& plan.image.envp.deep_view() == envp_of(env.env.deep_view())
        },
        r matches Err(e) ==> if !env.well_formed() {
            is_named_twice(e, env.fds@)
        } else if armed is Err {
            e == SandboxError::JailSetup(armed->Err_0)
        } else if pipes@.len() != pipes_wanted(env.fds@) {
            e matches SandboxError::JailSetup(m) && m@
                == "pipes do not match the requested descriptors"@
        } else {
            is_nul_failure(e)
        },
{
    env.validate()?;
    let sandbox = LandlockJail::new(policy, armed)?;
    let fd_set = ForkedFd::new(FdSet::from_vec(env.fds.modes()), pipes)?;
    let image = exec_image(&exec_path, &env)?;
    Ok(LaunchPlan { image, sandbox, fd_set })
}

/// What a wait on the child gave.
#[derive(Debug, Clone, Copy, PartialEq, Eq, Structural)]
pub enum WaitOutcome {
    /// The child has ended by itself, with this status.
    Exited(i32),
    /// The child was ended by the signal of this number.
    Signaled(i32),
    /// The wait failed, with this error number.
    Failed(i32),
    /// Anything else: the child is alive, or was stopped.
    Other,
}

/// The exit code that stands for a child which a signal has ended: 128 and
/// the number of the signal, as shells report it.
pub open spec fn signal_exit_code(signal: i32) -> i32 {
    if signal <= i32::MAX - 128 {
        (128 + signal) as i32
    } else {
        i32::MAX
    }
}

/// The exit code that a wait has seen, where it has seen the child end.
pub open spec fn observed_exit(waited: WaitOutcome) -> Option<i32> {
    match waited {
        WaitOutcome::Exited(code) => Some(code),
        WaitOutcome::Signaled(signal) => Some(signal_exit_code(signal)),
        _ => None,
    }
}

/// The exit code that a wait has seen, where it has seen the child end.
pub fn exit_code_of(waited: WaitOutcome) -> (r: Option<i32>)
    ensures
        r == observed_exit(waited),
{
    match waited {
        WaitOutcome::Exited(code) => Some(code),
        WaitOutcome::Signaled(signal) => if signal <= i32::MAX - 128 {
            Some(128 + signal)
        } else {
            Some(i32::MAX)
        },
        _ => None,
    }
}

/// What became of an attempt to end the child: of the signal that was sent,
/// and of the wait that followed where the signal could be sent.
#[derive(Debug, Clone, Copy, PartialEq, Eq, Structural)]
pub struct KillAttempt {
    /// `None` where the signal was sent, else the error number.
    pub signal_error: Option<i32>,
    /// What the wait behind the signal gave.
    pub waited: WaitOutcome,
}

/// Why the child could not be ended.
#[derive(Debug, Clone, Copy, PartialEq, Eq, Structural)]
pub enum KillFailure {
    /// The child counts as killed, and no exit code is known.
    KilledWithoutCode,
    /// The child has to be signalled, and the caller did not try.
    NotAttempted,
    /// The signal could not be sent.
    SignalFailed(i32),
    /// The wait behind the signal failed.
    WaitFailed(i32),
    /// The wait behind the signal did not find the child to have ended.
    UnexpectedStatus,
}

impl KillFailure {
    /// The words for the failure.
    pub open spec fn message(self) -> Seq<char> {
        match self {
            KillFailure::KilledWithoutCode => "BUG: process already killed, but exit code not set"@,
            KillFailure::NotAttempted => "child was not signalled"@,
            KillFailure::SignalFailed(_) => "failed terminating child"@,
            KillFailure::WaitFailed(_) => "failed waiting for child"@,
            KillFailure::UnexpectedStatus => "unexpected wait status after killing child"@,
        }
    }

    /// The failure as an I/O error: a failed wait with the number that the
    /// system gave, any other as a failure without a class.
    pub fn into_io(self) -> (e: IoError)
        ensures
            e.kind == (match self {
                KillFailure::WaitFailed(errno) => IoErrorKind::Os(errno),
                _ => IoErrorKind::Other,
            }),
            e.message@ == self.message(),
    {
        match self {
            KillFailure::KilledWithoutCode => IoError::new(
                IoErrorKind::Other,
                "BUG: process already killed, but exit code not set",
            ),
            KillFailure::NotAttempted => IoError::new(
                IoErrorKind::Other,
                "child was not signalled",
            ),
            KillFailure::SignalFailed(_) => IoError::new(
                IoErrorKind::Other,
                "failed terminating child",
            ),
            KillFailure::WaitFailed(errno) => IoError::new(
                IoErrorKind::Os(errno),
                "failed waiting for child",
            ),
            KillFailure::UnexpectedStatus => IoError::new(
                IoErrorKind::Other,
                "unexpected wait status after killing child",
            ),
        }
    }
}

/// What is known of a launched child, outside the handler as well: whether it
/// was killed, and the exit code once the child was reaped.  Whoever shares
/// the record guards it with one lock.
#[derive(Debug, Clone, Copy, PartialEq, Eq, Structural)]
pub struct LinuxChildState {
    pub pid: i32,
    pub killed: bool,
    pub exit_code: Option<i32>,
}

/// What the caller has to do next to learn the exit code when the handler has
/// returned.
#[derive(Debug, Clone, Copy, PartialEq, Eq, Structural)]
pub enum ReapStep {
    /// The exit code is known.
    Done(i32),
    /// Wait for the child without blocking, and report with `reap_polled`.
    Poll,
    /// Kill the child and wait for it, and report with `reap_killed`.
    Kill,
    /// The child could not be ended.
    Failed(KillFailure),
}

impl LinuxChildState {
    /// True for a record that holds together: a child that counts as killed
    /// has its exit code known.
    pub open spec fn wf(self) -> bool {
        self.killed ==> self.exit_code is Some
    }

    /// The record after a wait that was made because no exit code was known.
    pub open spec fn after_wait(self, waited: WaitOutcome) -> LinuxChildState {
        match (self.exit_code, observed_exit(waited)) {
            (None, Some(code)) => LinuxChildState { exit_code: Some(code), ..self },
            _ => self,
        }
    }

    /// The record after an attempt to end the child, and what the attempt is
    /// reported as.
    pub open spec fn after_kill(self, attempt: Option<KillAttempt>) -> (
        LinuxChildState,
        Result<i32, KillFailure>,
    ) {
        if self.killed {
            match self.exit_code {
                Some(code) => (self, Ok(code)),
                None => (self, Err(KillFailure::KilledWithoutCode)),
            }
        } else {
            match attempt {
                None => (self, Err(KillFailure::NotAttempted)),
                Some(a) => match a.signal_error {
                    Some(errno) => (self, Err(KillFailure::SignalFailed(errno))),
                    None => match a.waited {
                        WaitOutcome::Failed(errno) => (self, Err(KillFailure::WaitFailed(errno))),
                        WaitOutcome::Other => (self, Err(KillFailure::UnexpectedStatus)),
                        _ => (
                            LinuxChildState {
                                killed: true,
                                exit_code: observed_exit(a.waited),
                                ..self
                            },
                            Ok(observed_exit(a.waited)->Some_0),
                        ),
                    },
                },
            }
        }
    }

    pub fn new(pid: i32) -> (state: LinuxChildState)
        ensures
            state == (LinuxChildState { pid, killed: false, exit_code: None }),
            state.wf(),
    {
        LinuxChildState { pid, killed: false, exit_code: None }
    }

    /// Tells whether the child has to be waited for to learn its exit code:
    /// not where the code is known already.
    pub fn needs_wait(&self) -> (r: bool)
        ensures
            r == (self.exit_code is None),
    {
        self.exit_code.is_none()
    }

    /// The exit code of the child, or `None` while it has not ended.
    ///
    /// Where the code is known it is returned, whatever `waited` holds.  Else
    /// `waited` is what a wait without blocking gave just now: a child that
    /// has ended has its code kept, a child that a signal has ended with 128
    /// and the number of the signal for its code; a failed wait and a child
    /// that is alive give `None`.
    pub fn exit_code(&mut self, waited: WaitOutcome) -> (r: Option<i32>)
        ensures
            *final(self) == old(self).after_wait(waited),
            r == final(self).exit_code,
            old(self).wf() ==> final(self).wf(),
    {
        match self.exit_code {
            Some(code) => Some(code),
            None => {
                match exit_code_of(waited) {
                    Some(ec) => {
                        // What we expect.
                        self.exit_code = Some(ec);
                        Some(ec)
                    },
                    // A failed wait usually means that the child never
                    // started; anything else, that it is still alive.
                    None => None,
                }
            },
        }
    }

    /// Tells whether the child has to be signalled to end it: not where it
    /// counts as killed already.
    pub fn needs_kill(&self) -> (r: bool)
        ensures
            r == !self.killed,
    {
        !self.killed
    }

    /// Ends the child for good, and gives its exit code.
    ///
    /// A child that counts as killed is not touched again: its code is
    /// returned as it was kept.  Else `attempt` tells what became of the
    /// signal and of the wait behind it.  Only a child that the wait found to
    /// have ended counts as killed afterwards; in every other case the record
    /// stays as it was, so that the killing can be tried again.
    pub fn kill(&mut self, attempt: Option<KillAttempt>) -> (r: Result<i32, KillFailure>)
        ensures
            (*final(self), r) == old(self).after_kill(attempt),
            old(self).wf() ==> final(self).wf(),
            r matches Ok(code) ==> final(self).exit_code == Some(code),
    {
        if self.killed {
            match self.exit_code {
                Some(c) => {
                    return Ok(c);
                },
                None => {
                    return Err(KillFailure::KilledWithoutCode);
                },
            }
        }
        let attempt = match attempt {
            Some(a) => a,
            None => {
                return Err(KillFailure::NotAttempted);
            },
        };
        // The child cannot listen to signals, so it was killed hard.
        match attempt.signal_error {
            Some(errno) => {
                return Err(KillFailure::SignalFailed(errno));
            },
            None => {},
        }
        match exit_code_of(attempt.waited) {
            Some(c) => {
                // What we expect.
                self.killed = true;
                self.exit_code = Some(c);
                Ok(c)
            },
            None => match attempt.waited {
                // Don't mark the process as killed.
                // It might be an intermittent error?
                WaitOutcome::Failed(errno) => Err(KillFailure::WaitFailed(errno)),
                // The kill didn't work, and the process is alive in some odd
                // state.
                _ => Err(KillFailure::UnexpectedStatus),
            },
        }
    }

    /// The first step to the exit code once the handler has returned: a code
    /// that is known is the answer, else the child is to be waited for.
    pub fn reap_begin(&self) -> (step: ReapStep)
        ensures
            step == (match self.exit_code {
                Some(code) => ReapStep::Done(code),
                None => ReapStep::Poll,
            }),
    {
        match self.exit_code {
            Some(code) => ReapStep::Done(code),
            None => ReapStep::Poll,
        }
    }

    /// The step after the wait: a child that has ended by itself is done, any
    /// other is to be killed.
    pub fn reap_polled(&mut self, waited: WaitOutcome) -> (step: ReapStep)
        ensures
            *final(self) == old(self).after_wait(waited),
            step == (match final(self).exit_code {
                Some(code) => ReapStep::Done(code),
                None => ReapStep::Kill,
            }),
            old(self).wf() ==> final(self).wf(),
    {
        match self.exit_code(waited) {
            Some(code) => ReapStep::Done(code),
            None => ReapStep::Kill,
        }
    }

    /// The step after the killing: the exit code, or the failure to end the
    /// child.
    pub fn reap_killed(&mut self, attempt: KillAttempt) -> (step: ReapStep)
        ensures
            *final(self) == old(self).after_kill(Some(attempt)).0,
            step == (match old(self).after_kill(Some(attempt)).1 {
                Ok(code) => ReapStep::Done(code),
                Err(failure) => ReapStep::Failed(failure),
            }),
            old(self).wf() ==> final(self).wf(),
            step matches ReapStep::Done(code) ==> final(self).exit_code == Some(code),
    {
        match self.kill(Some(attempt)) {
            Ok(code) => ReapStep::Done(code),
            Err(failure) => ReapStep::Failed(failure),
        }
    }
}

/// Killing is idempotent: once a killing has given the exit code, every
/// further one gives the same code and leaves the record alone, whatever the
/// caller reports.
pub proof fn lemma_kill_is_idempotent(
    state: LinuxChildState,
    first: Option<KillAttempt>,
    second: Option<KillAttempt>,
)
    requires
        state.wf(),
        state.after_kill(first).1 is Ok,
    ensures
        ({
            let (killed, code) = state.after_kill(first);
            killed.after_kill(second) == (killed, code)
        }),
{
}

/// An exit code that is known stays through every later wait, whatever the
/// wait reports.
pub proof fn lemma_exit_code_is_kept(state: LinuxChildState, waited: WaitOutcome)
    requires
        state.exit_code is Some,
    ensures
        state.after_wait(waited) == state,
{
}

/// The record and the answer at the end of the way to the exit code that
/// is gone once the handler has returned: a code that is known is the answer;
/// else the child is waited for, and killed where it has not ended by itself.
pub open spec fn after_reap(state: LinuxChildState, waited: WaitOutcome, attempt: KillAttempt) -> (
    LinuxChildState,
    Result<i32, KillFailure>,
) {
    match state.exit_code {
        Some(code) => (state, Ok(code)),
        None => {
            let polled = state.after_wait(waited);
            match polled.exit_code {
                Some(code) => (polled, Ok(code)),
                None => polled.after_kill(Some(attempt)),
            }
        },
    }
}

/// A child that has ended by itself when the handler returns is reported with
/// the exit code it ended with, and is not killed: whatever an attempt to end
/// it would have given plays no part.
pub proof fn lemma_ended_child_is_reported(state: LinuxChildState, code: i32, attempt: KillAttempt)
    requires
        state.exit_code is None,
    ensures
        after_reap(state, WaitOutcome::Exited(code), attempt) == (
            LinuxChildState { exit_code: Some(code), ..state },
            Ok::<i32, KillFailure>(code),
        ),
{
}

/// A child that is alive when the handler returns is killed, and reported
/// with the code that stands for the way it ended.
pub proof fn lemma_live_child_is_killed(state: LinuxChildState, signal: i32)
    requires
        state.exit_code is None,
        !state.killed,
    ensures
        after_reap(
            state,
            WaitOutcome::Other,
            KillAttempt { signal_error: None, waited: WaitOutcome::Signaled(signal) },
        ) == (
            LinuxChildState { killed: true, exit_code: Some(signal_exit_code(signal)), ..state },
            Ok::<i32, KillFailure>(signal_exit_code(signal)),
        ),
{
}

/// Once the handler has returned and the exit code was found, the exit
/// status of the child is known for good: the code that the launch reports is
/// the one in the record, and the next question for the exit status gets it
/// without regard to what a wait would say.
pub proof fn lemma_exit_status_after_handler(
    state: LinuxChildState,
    waited: WaitOutcome,
    attempt: KillAttempt,
    later: WaitOutcome,
)
    requires
        after_reap(state, waited, attempt).1 is Ok,
    ensures
        ({
            let (reaped, code) = after_reap(state, waited, attempt);
            &&& reaped.exit_code == Some(code->Ok_0)
            &&& reaped.after_wait(later).exit_code == Some(code->Ok_0)
        }),
{
}

/// The streams by the descriptor under which the child sees its end.  Of two
/// streams for one descriptor the later one stays.
pub open spec fn stream_map(src: Seq<FdMap>) -> Map<u32, FdMap>
    decreases src.len(),
{
    if src.len() == 0 {
        Map::empty()
    } else {
        stream_map(src.drop_last()).insert(src.last().dup_to, src.last())
    }
}

/// The streams of a child follow the request: where no descriptor is named
/// twice, every entry that is served by a pipe has its stream under its own
/// number, flowing the way that the entry says, and no other number has a
/// stream.
pub proof fn lemma_streams_follow_the_request(fds: Seq<Fd>, pipes: Seq<PipeEnds>)
    requires
        unique_fds(fds),
    ensures
        ({
            let streams = stream_map(fork_maps(fds, pipes).map_values(|m: FdForkMap| parent_share(m)));
            &&& forall|i: int|
                0 <= i < fds.len() && wants_pipe((#[trigger] fds[i]).mode) ==> streams.contains_key(
                    fds[i].fd,
                ) && (streams[fds[i].fd].direction == StreamDirection::ToChild <==> fds[i].mode
                    == FdMode::ToChild)
            &&& forall|fd: u32| #[trigger]
                streams.contains_key(fd) ==> exists|i: int|
                    0 <= i < fds.len() && wants_pipe(fds[i].mode) && fds[i].fd == fd
        }),
    decreases fds.len(),
{
    let share = |m: FdForkMap| parent_share(m);
    let streams = stream_map(fork_maps(fds, pipes).map_values(share));
    if fds.len() > 0 {
        let init = fds.drop_last();
        let last = fds.last();
        let before = stream_map(fork_maps(init, pipes).map_values(share));
        assert forall|i: int, j: int| 0 <= i < j < init.len() implies init[i].fd != init[j].fd by {
            assert(fds[i].fd != fds[j].fd);
        }
        lemma_streams_follow_the_request(init, pipes);
        if wants_pipe(last.mode) {
            let wired = wire(last, pipes[pipes_wanted(init) as int]);
            assert(fork_maps(fds, pipes).map_values(share) =~= fork_maps(init, pipes).map_values(
                share,
            ).push(parent_share(wired)));
            assert(fork_maps(fds, pipes).map_values(share).drop_last() =~= fork_maps(
                init,
                pipes,
            ).map_values(share));
            assert(streams == before.insert(last.fd, parent_share(wired)));
        } else {
            assert(streams == before);
        }
        assert forall|i: int|
            0 <= i < fds.len() && wants_pipe((#[trigger] fds[i]).mode) implies streams.contains_key(
            fds[i].fd,
        ) && (streams[fds[i].fd].direction == StreamDirection::ToChild <==> fds[i].mode
            == FdMode::ToChild) by {
            if i < init.len() {
                assert(init[i] == fds[i]);
                assert(fds[i].fd != fds[fds.len() - 1].fd);
            }
        }
        assert forall|fd: u32| #[trigger] streams.contains_key(fd) implies exists|i: int|
            0 <= i < fds.len() && wants_pipe(fds[i].mode) && fds[i].fd == fd by {
            if before.contains_key(fd) {
                let i = choose|i: int|
                    0 <= i < init.len() && wants_pipe(init[i].mode) && init[i].fd == fd;
                assert(fds[i] == init[i]);
            } else {
                assert(fds[fds.len() - 1].fd == fd);
            }
        }
    } else {
        assert(fork_maps(fds, pipes).map_values(share) =~= Seq::<FdMap>::empty());
    }
}

fn fd_map(src: Vec<FdMap>) -> (ret: HashMap<u32, FdMap>)
    ensures
        ret@ == stream_map(src@),
{
    let mut ret: HashMap<u32, FdMap> = HashMap::new();
    let mut i: usize = 0;
    assert(src@.take(0) =~= Seq::<FdMap>::empty());
    while i < src.len()
        invariant
            i <= src@.len(),
            ret@ == stream_map(src@.take(i as int)),
        decreases src@.len() - i,
    {
        let f = src[i];
        ret.insert(f.dup_to, f);
        i += 1;
        assert(src@.take(i as int).drop_last() =~= src@.take(i - 1));
    }
    assert(src@.take(i as int) =~= src@);
    ret
}

/// The launched child as the handler sees it.
pub struct LinuxChild {
    state: LinuxChildState,
    fds: HashMap<u32, FdMap>,
}

/// A stream of the child as a slot of the handler's protocol.
pub open spec fn slot_of(map: FdMap) -> StreamSlot<i32> {
    StreamSlot { to_child: map.direction == StreamDirection::ToChild, end: map.stream }
}

impl LinuxChild {
    /// The streams that nobody has taken yet.
    pub closed spec fn streams(&self) -> Map<u32, FdMap> {
        self.fds@
    }

    /// What is known of the child's life.
    pub closed spec fn supervisor(&self) -> LinuxChildState {
        self.state
    }

    /// The child that was forked under the process number given, with the
    /// parent's ends of its pipes.
    pub fn new(pid: i32, fds: Vec<FdMap>) -> (child: LinuxChild)
        ensures
            child.streams() == stream_map(fds@),
            child.supervisor() == (LinuxChildState { pid, killed: false, exit_code: None }),
    {
        LinuxChild { state: LinuxChildState::new(pid), fds: fd_map(fds) }
    }

    /// What is known of the child's life, for whoever supervises the child
    /// beside the handler.
    pub fn state(&self) -> (state: LinuxChildState)
        ensures
            state == self.supervisor(),
    {
        self.state
    }

}

impl Child for LinuxChild {
    type Stream = i32;

    type Attempt = KillAttempt;

    type Waited = WaitOutcome;

    type Failure = KillFailure;

    open spec fn slots(&self) -> Map<u32, StreamSlot<i32>> {
        self.streams().map_values(|m: FdMap| slot_of(m))
    }

    open spec fn known_exit(&self) -> Option<i32> {
        self.supervisor().exit_code
    }

    open spec fn ended(&self) -> bool {
        self.supervisor().killed && self.supervisor().exit_code is Some
    }

    /// Request a hard termination of the child process; see
    /// [`LinuxChildState::kill`].
    fn terminate(&mut self, attempt: Option<KillAttempt>) -> (r: Result<(), KillFailure>)
        ensures
            final(self).streams() == old(self).streams(),
            final(self).supervisor() == old(self).supervisor().after_kill(attempt).0,
            r is Ok <==> old(self).supervisor().after_kill(attempt).1 is Ok,
            r matches Err(failure) ==> old(self).supervisor().after_kill(attempt).1 == Err::<
                i32,
                KillFailure,
            >(failure),
    {
        match self.state.kill(attempt) {
            Ok(_) => Ok(()),
            Err(failure) => Err(failure),
        }
    }

    /// Get the current exit status for the child process; see
    /// [`LinuxChildState::exit_code`].
    fn exit_status(&mut self, waited: WaitOutcome) -> (r: Option<i32>)
        ensures
            final(self).streams() == old(self).streams(),
            final(self).supervisor() == old(self).supervisor().after_wait(waited),
    {
        self.state.exit_code(waited)
    }

    /// The parent's end of the pipe that the child writes to under `fd`.  The
    /// stream is gone afterwards, also where it flows the other way and is not
    /// handed out.
    fn take_stream_from_child(&mut self, fd: u32) -> (r: Option<i32>)
        ensures
            final(self).streams() == old(self).streams().remove(fd),
            final(self).supervisor() == old(self).supervisor(),
    {
        let r = match self.fds.remove(&fd) {
            Some(f) => match f.direction {
                StreamDirection::FromChild => Some(f.stream),
                _ => None,
            },
            None => None,
        };
        proof {
            assert(self.slots() =~= old(self).slots().remove(fd));
        }
        r
    }

    /// The parent's end of the pipe that the child reads from under `fd`.  The
    /// stream is gone afterwards, also where it flows the other way and is not
    /// handed out.
    fn take_stream_to_child(&mut self, fd: u32) -> (r: Option<i32>)
        ensures
            final(self).streams() == old(self).streams().remove(fd),
            final(self).supervisor() == old(self).supervisor(),
    {
        let r = match self.fds.remove(&fd) {
            Some(f) => match f.direction {
                StreamDirection::ToChild => Some(f.stream),
                _ => None,
            },
            None => None,
        };
        proof {
            assert(self.slots() =~= old(self).slots().remove(fd));
        }
        r
    }
}

} // verus!
