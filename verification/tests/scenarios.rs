//! Whole launches, with the operating system played by the test: the test
//! hands the library what the system would have said, and does what the
//! library tells it to.

use grackle_zero::runtime::compose_outcome;
use grackle_zero::runtime::child_outcome;
use grackle_zero::runtime::error::{IoError, IoErrorKind, SandboxError};
use grackle_zero::runtime::spawn_linux::confine::{child_action, child_step, ChildAction, ChildState};
use grackle_zero::runtime::spawn_linux::dependencies::{DependencyTree, Library};
use grackle_zero::runtime::spawn_linux::fd::PipeEnds;
use grackle_zero::runtime::spawn_linux::launch::{
    launch_child, prepare_jail, KillAttempt, LaunchPlan, LaunchProbe, LinuxChild, LinuxChildState,
    ReapStep, WaitOutcome,
};
use grackle_zero::{Child, FdMode, FdSet, LaunchEnv};
use std::collections::HashMap;

fn b(s: &str) -> Vec<u8> {
    s.as_bytes().to_vec()
}

/// What the test remembers of a handler's run.
#[derive(Debug, Default, PartialEq)]
struct Milestones {
    handle_started: bool,
    sent_init: bool,
    read_start: bool,
    read_end: bool,
}

/// The pipes of a launch as the test plays them: what the child writes, and
/// what the parent has written.
struct Pipes {
    from_child: HashMap<i32, Vec<u8>>,
    to_child: HashMap<i32, Vec<u8>>,
}

fn plan_for(program: &str, args: Vec<Vec<u8>>) -> LaunchPlan {
    let probe = LaunchProbe {
        resolved: Some(b(program)),
        absolute: Some(b(program)),
        found: true,
        tree: Some(DependencyTree {
            needed: vec!["libc.so.6".to_string()],
            libraries: vec![Library {
                name: "libc.so.6".to_string(),
                path: b("/lib/libc.so.6"),
                realpath: Some(b("/usr/lib/libc.so.6")),
                needed: vec![],
            }],
        }),
    };
    let (exec_path, policy) = prepare_jail(probe).ok().unwrap();
    let env = LaunchEnv {
        cmd: b(program),
        args,
        cwd: b("."),
        env: vec![(b("RUST_BACKTRACE"), b("1"))],
        // This leaves stderr untouched for easier debugging.
        fds: FdSet::basic(&[FdMode::ToChild, FdMode::FromChild, FdMode::KeepInChild]),
    };
    let pipes = vec![PipeEnds { read_fd: 20, write_fd: 21 }, PipeEnds { read_fd: 22, write_fd: 23 }];
    launch_child(env, exec_path, policy, Ok(()), pipes).ok().unwrap()
}

fn confined(plan: &LaunchPlan) -> ChildState {
    // The child's way into the jail, every step going well.
    let mut state = ChildState::Unconfined;
    let mut committed_before_exec = false;
    while child_action(state) != ChildAction::Nothing {
        if child_action(state) == ChildAction::Exec {
            assert!(committed_before_exec);
        }
        if child_action(state) == ChildAction::CommitConfinement {
            committed_before_exec = true;
        }
        state = child_step(state, true);
    }
    assert_eq!(plan.sandbox.ruleset().handled_fs, 0x1fff);
    state
}

/// The handler of the scenarios: writes '0', reads '1', reads '2'.
fn handle(
    child: &mut LinuxChild,
    pipes: &mut Pipes,
    seen: &mut Milestones,
    read_second: bool,
) -> Result<(), IoError> {
    seen.handle_started = true;
    let out = match child.take_stream_to_child(0) {
        Some(f) => f,
        None => return Err(IoError::new(IoErrorKind::BrokenPipe, "no stdin")),
    };
    let inp = match child.take_stream_from_child(1) {
        Some(f) => f,
        None => return Err(IoError::new(IoErrorKind::BrokenPipe, "no stdout")),
    };
    pipes.to_child.entry(out).or_default().push(b'0');
    seen.sent_init = true;
    let written = pipes.from_child.entry(inp).or_default();
    if written.is_empty() {
        return Err(IoError::new(IoErrorKind::UnexpectedEof, "failed to fill whole buffer"));
    }
    if written.remove(0) != b'1' {
        return Err(IoError::new(IoErrorKind::BrokenPipe, "did not read '1'"));
    }
    seen.read_start = true;
    if !read_second {
        return Ok(());
    }
    if written.is_empty() {
        return Err(IoError::new(IoErrorKind::UnexpectedEof, "failed to fill whole buffer"));
    }
    if written.remove(0) != b'2' {
        return Err(IoError::new(IoErrorKind::BrokenPipe, "did not read '2'"));
    }
    seen.read_end = true;
    Ok(())
}

/// The end of a launch: the way to the exit code with the system played by
/// `waited` and `killed`, and the outcome.
fn finish(
    state: &mut LinuxChildState,
    handled: Result<(), IoError>,
    waited: WaitOutcome,
    killed: WaitOutcome,
) -> (Result<i32, SandboxError>, bool) {
    let mut was_killed = false;
    let mut step = state.reap_begin();
    if step == ReapStep::Poll {
        step = state.reap_polled(waited);
    }
    if step == ReapStep::Kill {
        was_killed = true;
        step = state.reap_killed(KillAttempt { signal_error: None, waited: killed });
    }
    (compose_outcome(handled, child_outcome(step)), was_killed)
}

/// A launch with the child writing `child_writes` to its standard output and
/// ending as `waited` says.
fn launch(
    program: &str,
    child_writes: &[u8],
    waited: WaitOutcome,
    read_second: bool,
) -> (Result<i32, SandboxError>, Milestones, LinuxChildState, bool) {
    let plan = plan_for(program, vec![b("1")]);
    assert_eq!(confined(&plan), ChildState::Execd);
    let mut child = LinuxChild::new(4242, plan.fd_set.parent_after_fork());
    let mut pipes = Pipes { from_child: HashMap::new(), to_child: HashMap::new() };
    // The parent reads what the child writes to descriptor 1 from the reading
    // end of the second pipe.
    pipes.from_child.insert(22, child_writes.to_vec());
    let mut seen = Milestones::default();
    let handled = handle(&mut child, &mut pipes, &mut seen, read_second);
    assert_eq!(pipes.to_child.get(&21), Some(&vec![b'0']));
    let mut state = child.state();
    let (outcome, was_killed) = finish(&mut state, handled, waited, WaitOutcome::Signaled(9));
    (outcome, seen, state, was_killed)
}

#[test]
fn noop_child_runs_to_its_end() {
    let (outcome, seen, state, was_killed) = launch("/bin/noop", b"12", WaitOutcome::Exited(0), true);
    assert!(matches!(outcome, Ok(0)));
    assert_eq!(
        seen,
        Milestones { handle_started: true, sent_init: true, read_start: true, read_end: true }
    );
    assert_eq!(state.exit_code, Some(0));
    assert!(!was_killed);
}

#[test]
fn blocked_file_read_ends_the_child_early() {
    // The child writes '1', is refused the file, and ends with its panic
    // status; the handler meets the end of the stream where it waits for '2'.
    let (outcome, seen, state, _) = launch("/bin/file-read", b"1", WaitOutcome::Exited(101), true);
    match outcome {
        Err(SandboxError::Io(e)) => assert_eq!(e.kind, IoErrorKind::UnexpectedEof),
        _ => panic!("unexpected outcome"),
    }
    assert_eq!(
        seen,
        Milestones { handle_started: true, sent_init: true, read_start: true, read_end: false }
    );
    assert!([101, 111].contains(&state.exit_code.unwrap()));
}

#[test]
fn blocked_self_exec_ends_the_child_early() {
    let (outcome, seen, state, _) = launch("/bin/exec-self", b"1", WaitOutcome::Exited(101), true);
    assert!(outcome.is_err());
    assert!(seen.read_start && !seen.read_end);
    assert!([101, 111].contains(&state.exit_code.unwrap()));
}

#[test]
fn tcp_connect_is_denied_by_the_policy() {
    let plan = plan_for("/bin/tcpip", vec![b("127.0.0.1:4000")]);
    let policy = plan.sandbox.ruleset();
    // Binding and connecting TCP are handled, and no rule grants them.
    assert_eq!(policy.handled_net, 0x3);
    assert_eq!(plan.image.argv, vec![b("sandboxed\0"), b("127.0.0.1:4000\0")]);
    let (outcome, seen, state, _) = launch("/bin/tcpip", b"1", WaitOutcome::Exited(101), true);
    assert!(outcome.is_err());
    assert!(!seen.read_end);
    assert_ne!(state.exit_code, Some(0));
}

#[test]
fn system_files_are_outside_the_allow_list() {
    let plan = plan_for("/bin/cpuid", vec![b("soumicdhq")]);
    let policy = plan.sandbox.ruleset();
    assert_eq!(policy.allowed_read_paths, vec![b("/bin/cpuid"), b("/usr/lib/libc.so.6")]);
    assert!(!policy.allowed_read_paths.contains(&b("/etc/machine-id")));
    assert!(!policy.allowed_read_paths.contains(&b("/proc/cpuinfo")));
    // Only reading is granted, and every other access to files is handled.
    assert_eq!(policy.allowed_fs, 0xd);
    assert_eq!(policy.handled_fs & !policy.allowed_fs, 0x1ff2);
    let (outcome, _, state, _) = launch("/bin/cpuid", b"1", WaitOutcome::Exited(101), true);
    assert!(outcome.is_err());
    assert_ne!(state.exit_code, Some(0));
}

#[test]
fn handler_that_returns_early_has_the_child_killed() {
    // The handler does not wait for '2'; the child is still alive.
    let (outcome, seen, state, was_killed) = launch("/bin/noop", b"12", WaitOutcome::Other, false);
    assert!(was_killed);
    assert!(matches!(outcome, Ok(137)));
    assert_eq!(
        seen,
        Milestones { handle_started: true, sent_init: true, read_start: true, read_end: false }
    );
    assert_eq!(state.exit_code, Some(137));
    assert!(state.killed);
}

#[test]
fn child_that_could_not_confine_itself_ends_with_255() {
    let mut state = ChildState::Unconfined;
    for ok in [true, true, false] {
        state = child_step(state, ok);
    }
    assert_eq!(state, ChildState::Exited(255));
    assert_eq!(child_action(state), ChildAction::Exit(255));
    let mut supervisor = LinuxChildState::new(1);
    let (outcome, _) = finish(&mut supervisor, Ok(()), WaitOutcome::Exited(255), WaitOutcome::Other);
    assert!(matches!(outcome, Ok(255)));
}
