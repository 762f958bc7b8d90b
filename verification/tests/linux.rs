use grackle_zero::runtime::error::{IoErrorKind, SandboxError};
use grackle_zero::runtime::spawn_linux::confine::{
    child_action, child_step, close_open_fds, descriptor_limit, must_close, ChildAction, ChildState,
};
use grackle_zero::runtime::spawn_linux::dependencies::{
    find_bin_dependencies, Dependency, DependencyTree, Library,
};
use grackle_zero::runtime::spawn_linux::fd::{
    as_c_int, count_pipes, DupOp, FdMap, ForkedFd, PipeEnds, StreamDirection,
};
use grackle_zero::runtime::spawn_linux::jail::{
    new_sandbox, LandlockJail, RestrictOutcome, EXIT_CONFINEMENT_FAILED,
};
use grackle_zero::runtime::spawn_linux::launch::{
    exit_code_of, extract_dependencies, launch_child, prepare_jail, KillAttempt, KillFailure, LaunchProbe,
    LinuxChild, LinuxChildState, ReapStep, WaitOutcome,
};
use grackle_zero::{Child, Fd, FdMode, FdSet, LaunchEnv};
use std::collections::HashSet;

fn b(s: &str) -> Vec<u8> {
    s.as_bytes().to_vec()
}

fn dep(path: &str, realpath: Option<&str>, required: bool) -> Dependency {
    Dependency { path: b(path), realpath: realpath.map(b), required }
}

fn lib(name: &str, path: &str, realpath: Option<&str>, needed: &[&str]) -> Library {
    Library {
        name: name.to_string(),
        path: b(path),
        realpath: realpath.map(b),
        needed: needed.iter().map(|n| n.to_string()).collect(),
    }
}

fn summary(deps: &[Dependency]) -> Vec<(String, bool, bool)> {
    deps.iter()
        .map(|d| (String::from_utf8(d.best_path().clone()).unwrap(), d.exists_on_disk(), d.required))
        .collect()
}

// Match the map's direction.
fn matches_direction(map: &FdMap, expected: StreamDirection) {
    match (&map.direction, expected) {
        (StreamDirection::ToChild, StreamDirection::ToChild) => {}
        (StreamDirection::FromChild, StreamDirection::FromChild) => {}
        _ => panic!(
            "unexpected direction mapping: found {:?}, expected {:?}",
            map.direction, expected
        ),
    }
}

/// Test that the parent mapping direction construction are correct.
#[test]
fn parent_mapping_directions() {
    // Build an FdSet with mixed modes including Null.
    // Make sure the FDs aren't consecutive.
    let fds = FdSet::from_vec(vec![
        Fd { fd: 5, mode: FdMode::ToChild },
        Fd { fd: 7, mode: FdMode::Null },
        Fd { fd: 12, mode: FdMode::FromChild },
    ]);

    // Create forked fds, then simulate the parent path to collect streams.
    let pipes = vec![PipeEnds { read_fd: 40, write_fd: 41 }, PipeEnds { read_fd: 42, write_fd: 43 }];
    let forked = ForkedFd::new(fds, pipes).expect("Failed to create ForkedFd");
    let mut maps = forked.parent_after_fork();

    // Only non-Null entries should result in mappings.
    assert_eq!(maps.len(), 2, "expected exactly 2 active mappings");

    // Sort by dup target for stable assertions.
    maps.sort_by_key(|m| m.dup_to);

    assert_eq!(maps[0].dup_to, 5);
    matches_direction(&maps[0], StreamDirection::ToChild);

    assert_eq!(maps[1].dup_to, 12);
    matches_direction(&maps[1], StreamDirection::FromChild);

    // The parent writes where the data flows to the child, and reads where it
    // flows from the child; the child gets the other ends under its numbers.
    assert_eq!(maps[0].stream, 41);
    assert_eq!(maps[1].stream, 42);
    assert_eq!(forked.parent_closes(), vec![40, 43]);
    assert_eq!(
        forked.child_after_fork(),
        vec![DupOp { source: 40, target: 5 }, DupOp { source: 43, target: 12 }]
    );
    let mut kept: Vec<i32> = forked.child_fd_list().into_iter().collect();
    kept.sort();
    assert_eq!(kept, vec![5, 12]);
}

#[test]
fn test_landlock_jail() {
    let allowed_paths = vec![b("/tmp"), b("/var/log")];
    let policy = new_sandbox(&allowed_paths);
    assert_eq!(policy.handled_fs, 0x1fff);
    assert_eq!(policy.allowed_fs, 0xd);
    assert_eq!(policy.handled_net, 0x3);
    assert!(policy.scope_abstract_unix_socket && policy.scope_signal);
    assert_eq!(policy.allowed_read_paths, allowed_paths);
    assert_eq!(policy.allowed_fs & !policy.handled_fs, 0);
    let jail = LandlockJail::new(policy, Ok(()));
    assert!(jail.is_ok());
}

#[test]
fn landlock_jail_reports_the_kernel_refusal() {
    match LandlockJail::new(new_sandbox(&vec![]), Err("no landlock".to_string())) {
        Err(SandboxError::JailSetup(m)) => assert_eq!(m, "no landlock"),
        _ => panic!("unexpected outcome"),
    }
}

#[test]
fn restrict_goes_on_only_when_the_confinement_is_in_force() {
    let jail = || LandlockJail::new(new_sandbox(&vec![b("/usr")]), Ok(())).unwrap();
    assert_eq!(jail().restrict(RestrictOutcome::Available), Ok(()));
    assert_eq!(jail().restrict(RestrictOutcome::Failed), Err(EXIT_CONFINEMENT_FAILED));
    assert_eq!(jail().restrict(RestrictOutcome::NotEnabled), Err(255));
    assert_eq!(jail().restrict(RestrictOutcome::NotImplemented), Err(255));
    assert_eq!(jail().ruleset().allowed_read_paths, vec![b("/usr")]);
}

#[test]
fn try_ls() {
    // This module requires a Linux, so linux specific test.
    let p_exec = which::which("ls").unwrap();
    assert_eq!(p_exec.exists(), true);

    // At a minimum, it should have 1 resolved dependency.
    let path = b(p_exec.to_str().unwrap());
    let absolute = std::path::absolute(&p_exec).ok().map(|p| b(p.to_str().unwrap()));
    let exec_dep = Dependency::from_path(&path, absolute, p_exec.exists(), true);
    let tree = lddtree::DependencyAnalyzer::new(std::path::PathBuf::from("/"))
        .analyze(&p_exec)
        .ok()
        .map(|t| DependencyTree {
            needed: t.needed.clone(),
            libraries: t
                .libraries
                .values()
                .map(|l| Library {
                    name: l.name.clone(),
                    path: b(l.path.to_str().unwrap()),
                    realpath: l.realpath.as_ref().map(|p| b(p.to_str().unwrap())),
                    needed: l.needed.clone(),
                })
                .collect(),
        });
    let deps = find_bin_dependencies(exec_dep, tree);
    let mut found_count = 0;
    for d in deps {
        let best = std::path::PathBuf::from(String::from_utf8(d.best_path().clone()).unwrap());
        if d.exists_on_disk() {
            found_count += 1;
            assert_eq!(best.exists(), true, "resolved should exist");
        } else {
            assert_eq!(best.exists(), false, "resolved should not exist");
        }
    }
    assert_eq!(found_count > 0, true, "Must have at least 1 dependency");
}

#[test]
fn dependencies_are_marked_and_listed_once() {
    let exec = dep("/bin/tool", Some("/usr/bin/tool"), true);
    let tree = DependencyTree {
        needed: vec!["libc.so.6".to_string()],
        libraries: vec![
            lib("libc.so.6", "/lib/libc.so.6", Some("/usr/lib/libc.so.6"), &["ld.so"]),
            lib("ld.so", "/lib/ld.so", Some("/usr/lib/ld.so"), &[]),
            lib("libopt.so", "/lib/libopt.so", None, &[]),
            lib("alias.so", "/lib/alias.so", Some("/usr/lib/libc.so.6"), &[]),
            lib("libopt2.so", "/lib/libopt.so", None, &[]),
        ],
    };
    let deps = find_bin_dependencies(exec, Some(tree));
    assert_eq!(
        summary(&deps),
        vec![
            ("/usr/bin/tool".to_string(), true, true),
            ("/usr/lib/libc.so.6".to_string(), true, true),
            ("/usr/lib/ld.so".to_string(), true, true),
            ("/lib/libopt.so".to_string(), false, false),
        ]
    );
    assert_eq!(deps[0].path, b("/bin/tool"));
    assert!(!deps[3].invalid());
    let allowed = extract_dependencies(deps).unwrap();
    assert_eq!(allowed, vec![b("/usr/bin/tool"), b("/usr/lib/libc.so.6"), b("/usr/lib/ld.so")]);
}

#[test]
fn missing_executable_is_reported_alone() {
    let exec = Dependency::from_path(&b("/nowhere/tool"), Some(b("/nowhere/tool")), false, true);
    assert!(!exec.exists_on_disk() && exec.invalid());
    let tree = DependencyTree { needed: vec![], libraries: vec![lib("x", "/x", Some("/x"), &[])] };
    let deps = find_bin_dependencies(exec, Some(tree));
    assert_eq!(summary(&deps), vec![("/nowhere/tool".to_string(), false, true)]);

    let exec = Dependency::from_path(&b("rel/tool"), None, true, true);
    assert!(!exec.exists_on_disk());
    let exec = Dependency::from_path(&b("rel/tool"), Some(b("/abs/rel/tool")), true, false);
    assert_eq!(exec.best_path(), &b("/abs/rel/tool"));
    assert!(!exec.invalid());
    let deps = find_bin_dependencies(exec, None);
    assert_eq!(summary(&deps), vec![("/abs/rel/tool".to_string(), true, false)]);
}

#[test]
fn missing_required_libraries_are_named() {
    let deps = vec![
        dep("/bin/tool", Some("/bin/tool"), true),
        dep("libfirst.so", None, true),
        dep("libopt.so", None, false),
        dep("lib\u{e9}cond.so", None, true),
        Dependency { path: vec![b'l', 0xff, b'x'], realpath: None, required: true },
    ];
    match extract_dependencies(deps) {
        Err(SandboxError::JailSetup(m)) => assert_eq!(
            m,
            "missing library dependencies: libfirst.so, lib\u{e9}cond.so, l\u{fffd}x"
        ),
        _ => panic!("unexpected outcome"),
    }
    assert!(extract_dependencies(vec![]).unwrap().is_empty());
}

fn probe(resolved: Option<&str>, found: bool, libraries: Vec<Library>, needed: &[&str]) -> LaunchProbe {
    LaunchProbe {
        resolved: resolved.map(b),
        absolute: resolved.map(b),
        found,
        tree: Some(DependencyTree {
            needed: needed.iter().map(|n| n.to_string()).collect(),
            libraries,
        }),
    }
}

#[test]
fn command_that_is_not_found_gives_an_io_error() {
    match prepare_jail(probe(None, false, vec![], &[])) {
        Err(SandboxError::Io(e)) => assert_eq!(e.kind, IoErrorKind::NotFound),
        _ => panic!("unexpected outcome"),
    }
}

#[test]
fn executable_that_does_not_exist_gives_a_jail_setup_error() {
    match prepare_jail(probe(Some("/gone/tool"), false, vec![], &[])) {
        Err(SandboxError::JailSetup(m)) => {
            assert_eq!(m, "missing library dependencies: /gone/tool")
        }
        _ => panic!("unexpected outcome"),
    }
    let mut p = probe(Some("/gone/tool"), true, vec![], &[]);
    p.absolute = None;
    assert!(matches!(prepare_jail(p), Err(SandboxError::JailSetup(_))));
}

#[test]
fn required_library_that_is_not_resolved_gives_a_jail_setup_error() {
    let libraries = vec![
        lib("libc.so.6", "/lib/libc.so.6", Some("/lib/libc.so.6"), &["libgone.so"]),
        lib("libgone.so", "libgone.so", None, &[]),
    ];
    match prepare_jail(probe(Some("/bin/tool"), true, libraries, &["libc.so.6"])) {
        Err(SandboxError::JailSetup(m)) => {
            assert_eq!(m, "missing library dependencies: libgone.so")
        }
        _ => panic!("unexpected outcome"),
    }
}

#[test]
fn jail_allows_reading_the_executable_and_its_libraries() {
    let libraries = vec![
        lib("libc.so.6", "/lib/libc.so.6", Some("/usr/lib/libc.so.6"), &[]),
        lib("libopt.so", "libopt.so", None, &[]),
    ];
    let (exec_path, policy) =
        prepare_jail(probe(Some("/bin/tool"), true, libraries, &["libc.so.6"])).ok().unwrap();
    assert_eq!(exec_path, b("/bin/tool"));
    assert_eq!(policy.allowed_read_paths, vec![b("/bin/tool"), b("/usr/lib/libc.so.6")]);
    assert_eq!((policy.handled_fs, policy.allowed_fs), (0x1fff, 0xd));
}

fn request(fds: FdSet) -> LaunchEnv {
    LaunchEnv {
        cmd: b("tool"),
        args: vec![b("1"), b("two words")],
        cwd: b("."),
        env: vec![(b("RUST_BACKTRACE"), b("1")), (b("EMPTY"), b(""))],
        fds,
    }
}

fn noop_fds() -> FdSet {
    FdSet::basic(&[FdMode::ToChild, FdMode::FromChild, FdMode::KeepInChild])
}

fn two_pipes() -> Vec<PipeEnds> {
    vec![PipeEnds { read_fd: 10, write_fd: 11 }, PipeEnds { read_fd: 12, write_fd: 13 }]
}

#[test]
fn launch_plan_holds_the_strings_for_the_child() {
    let policy = new_sandbox(&vec![b("/bin/tool")]);
    let plan = launch_child(request(noop_fds()), b("/bin/tool"), policy, Ok(()), two_pipes())
        .ok()
        .unwrap();
    assert_eq!(plan.image.exec_path, b("/bin/tool\0"));
    assert_eq!(plan.image.cwd, b(".\0"));
    assert_eq!(plan.image.argv, vec![b("sandboxed\0"), b("1\0"), b("two words\0")]);
    assert_eq!(plan.image.envp, vec![b("RUST_BACKTRACE=1\0"), b("EMPTY=\0")]);
    assert_eq!(
        plan.fd_set.child_after_fork(),
        vec![DupOp { source: 10, target: 0 }, DupOp { source: 13, target: 1 }]
    );
    let mut kept: Vec<i32> = plan.fd_set.child_fd_list().into_iter().collect();
    kept.sort();
    assert_eq!(kept, vec![0, 1, 2]);
    assert_eq!(plan.sandbox.ruleset().allowed_read_paths, vec![b("/bin/tool")]);
}

#[test]
fn launch_is_refused_for_nul_bad_pipes_and_unarmed_jail() {
    let policy = || new_sandbox(&vec![]);
    let mut env = request(noop_fds());
    env.args.push(vec![b'a', 0, b'b']);
    match launch_child(env, b("/bin/tool"), policy(), Ok(()), two_pipes()) {
        Err(SandboxError::Io(e)) => assert_eq!(e.kind, IoErrorKind::InvalidFilename),
        _ => panic!("unexpected outcome"),
    }
    let mut env = request(noop_fds());
    env.env.push((b("K"), vec![0]));
    assert!(matches!(
        launch_child(env, b("/bin/tool"), policy(), Ok(()), two_pipes()),
        Err(SandboxError::Io(_))
    ));
    assert!(matches!(
        launch_child(request(noop_fds()), vec![0], policy(), Ok(()), two_pipes()),
        Err(SandboxError::Io(_))
    ));
    assert!(matches!(
        launch_child(request(noop_fds()), b("/bin/tool"), policy(), Ok(()), vec![]),
        Err(SandboxError::JailSetup(_))
    ));
    assert!(matches!(
        launch_child(request(noop_fds()), b("/bin/tool"), policy(), Err("denied".to_string()), two_pipes()),
        Err(SandboxError::JailSetup(_))
    ));
}

#[test]
fn request_that_names_something_twice_is_refused() {
    let policy = || new_sandbox(&vec![]);
    let twice = FdSet::from_vec(vec![
        Fd { fd: 1, mode: FdMode::FromChild },
        Fd { fd: 1, mode: FdMode::ToChild },
    ]);
    assert!(!twice.is_unique());
    assert!(noop_fds().is_unique());
    match launch_child(request(twice), b("/bin/tool"), policy(), Ok(()), two_pipes()) {
        Err(SandboxError::JailSetup(m)) => assert_eq!(m, "a descriptor is named twice"),
        _ => panic!("unexpected outcome"),
    }
    let mut env = request(noop_fds());
    assert!(env.validate().is_ok());
    env.env.push((b("EMPTY"), b("again")));
    match env.validate() {
        Err(SandboxError::JailSetup(m)) => assert_eq!(m, "a variable is named twice"),
        _ => panic!("unexpected outcome"),
    }
    match launch_child(env, b("/bin/tool"), policy(), Ok(()), two_pipes()) {
        Err(SandboxError::JailSetup(m)) => assert_eq!(m, "a variable is named twice"),
        _ => panic!("unexpected outcome"),
    }
}

#[test]
fn taking_a_stream_leaves_the_supervisor_alone() {
    let mut child = LinuxChild::new(42, streams());
    assert_eq!(child.exit_status(WaitOutcome::Exited(3)), Some(3));
    let before = child.state();
    assert_eq!(child.take_stream_to_child(0), Some(11));
    assert_eq!(child.take_stream_to_child(1), None);
    assert_eq!(child.state(), before);
    assert_eq!(child.exit_status(WaitOutcome::Other), Some(3));
}

#[test]
fn pipes_are_counted_and_descriptors_wrap_like_c_ints() {
    assert_eq!(count_pipes(&noop_fds()), 2);
    assert_eq!(count_pipes(&FdSet::basic(&[FdMode::Null, FdMode::KeepInChild])), 0);
    assert_eq!(as_c_int(0), 0);
    assert_eq!(as_c_int(0x7fff_ffff), i32::MAX);
    assert_eq!(as_c_int(0x8000_0000), i32::MIN);
    assert_eq!(as_c_int(u32::MAX), -1);
    match ForkedFd::new(noop_fds(), vec![PipeEnds { read_fd: 3, write_fd: 4 }]) {
        Err(SandboxError::JailSetup(m)) => {
            assert_eq!(m, "pipes do not match the requested descriptors")
        }
        _ => panic!("unexpected outcome"),
    }
}

fn streams() -> Vec<FdMap> {
    vec![
        FdMap { dup_to: 0, stream: 11, direction: StreamDirection::ToChild },
        FdMap { dup_to: 1, stream: 12, direction: StreamDirection::FromChild },
    ]
}

#[test]
fn stream_to_child_is_handed_out_once_as_a_writer_and_never_as_a_reader() {
    let mut child = LinuxChild::new(100, streams());
    assert_eq!(child.take_stream_to_child(0), Some(11));
    assert_eq!(child.take_stream_to_child(0), None);
    assert_eq!(child.take_stream_from_child(0), None);

    let mut child = LinuxChild::new(100, streams());
    assert_eq!(child.take_stream_from_child(0), None);
    // The stream is used up by the taking that asked for the wrong direction.
    assert_eq!(child.take_stream_to_child(0), None);
}

#[test]
fn stream_from_child_is_handed_out_once_as_a_reader_and_never_as_a_writer() {
    let mut child = LinuxChild::new(100, streams());
    assert_eq!(child.take_stream_from_child(1), Some(12));
    assert_eq!(child.take_stream_from_child(1), None);
    assert_eq!(child.take_stream_to_child(1), None);
    assert_eq!(child.take_stream_from_child(2), None);
    assert_eq!(child.take_stream_to_child(7), None);
    // Other streams are not touched.
    assert_eq!(child.take_stream_to_child(0), Some(11));
}

fn killed_with(code: i32) -> Option<KillAttempt> {
    Some(KillAttempt { signal_error: None, waited: WaitOutcome::Exited(code) })
}

#[test]
fn terminate_twice_gives_the_same_exit_code() {
    let mut state = LinuxChildState::new(42);
    assert!(state.needs_kill() && state.needs_wait());
    assert_eq!(state.kill(killed_with(9)), Ok(9));
    assert!(!state.needs_kill());
    assert_eq!(state.kill(killed_with(1)), Ok(9));
    assert_eq!(state.kill(None), Ok(9));
    assert_eq!(
        state.kill(Some(KillAttempt { signal_error: Some(3), waited: WaitOutcome::Other })),
        Ok(9)
    );
    assert_eq!(state.exit_code(WaitOutcome::Exited(5)), Some(9));
    assert_eq!(state, LinuxChildState { pid: 42, killed: true, exit_code: Some(9) });

    let mut child = LinuxChild::new(42, streams());
    assert_eq!(child.terminate(killed_with(137)), Ok(()));
    assert_eq!(child.terminate(None), Ok(()));
    assert_eq!(child.exit_status(WaitOutcome::Other), Some(137));
    assert_eq!(child.state().pid, 42);
}

#[test]
fn kill_failures_leave_the_child_to_be_killed_again() {
    let mut state = LinuxChildState::new(42);
    assert_eq!(state.kill(None), Err(KillFailure::NotAttempted));
    assert_eq!(
        state.kill(Some(KillAttempt { signal_error: Some(1), waited: WaitOutcome::Exited(0) })),
        Err(KillFailure::SignalFailed(1))
    );
    assert_eq!(
        state.kill(Some(KillAttempt { signal_error: None, waited: WaitOutcome::Failed(10) })),
        Err(KillFailure::WaitFailed(10))
    );
    assert_eq!(
        state.kill(Some(KillAttempt { signal_error: None, waited: WaitOutcome::Other })),
        Err(KillFailure::UnexpectedStatus)
    );
    assert_eq!(state, LinuxChildState::new(42));
    // A child that the signal has ended counts as killed.
    assert_eq!(
        state.kill(Some(KillAttempt { signal_error: None, waited: WaitOutcome::Signaled(9) })),
        Ok(137)
    );
    assert_eq!(state.kill(None), Ok(137));
    let mut broken = LinuxChildState { pid: 1, killed: true, exit_code: None };
    assert_eq!(broken.kill(killed_with(0)), Err(KillFailure::KilledWithoutCode));
    assert_eq!(KillFailure::WaitFailed(10).into_io().kind, IoErrorKind::Os(10));
    assert_eq!(KillFailure::SignalFailed(1).into_io().kind, IoErrorKind::Other);
    assert_eq!(KillFailure::SignalFailed(1).into_io().message, "failed terminating child");
}

#[test]
fn exit_code_is_kept_once_the_child_was_seen_to_end() {
    let mut state = LinuxChildState::new(7);
    assert_eq!(state.exit_code(WaitOutcome::Other), None);
    assert_eq!(state.exit_code(WaitOutcome::Failed(10)), None);
    assert_eq!(state.exit_code(WaitOutcome::Exited(101)), Some(101));
    assert!(!state.needs_wait());
    assert_eq!(state.exit_code(WaitOutcome::Other), Some(101));
    assert_eq!(state.exit_code(WaitOutcome::Exited(0)), Some(101));
    let mut crashed = LinuxChildState::new(8);
    assert_eq!(crashed.exit_code(WaitOutcome::Signaled(11)), Some(139));
    assert_eq!(exit_code_of(WaitOutcome::Signaled(i32::MAX)), Some(i32::MAX));
    assert_eq!(exit_code_of(WaitOutcome::Signaled(i32::MAX - 128)), Some(i32::MAX));
    assert_eq!(exit_code_of(WaitOutcome::Exited(-1)), Some(-1));
    assert_eq!(exit_code_of(WaitOutcome::Other), None);
    assert_eq!(exit_code_of(WaitOutcome::Failed(3)), None);
}

#[test]
fn exit_status_is_known_after_the_handler_returned() {
    // The child has ended by itself and was seen by the handler.
    let mut state = LinuxChildState::new(7);
    state.exit_code(WaitOutcome::Exited(0));
    assert_eq!(state.reap_begin(), ReapStep::Done(0));

    // The child has ended by itself and nobody has looked yet.
    let mut state = LinuxChildState::new(7);
    assert_eq!(state.reap_begin(), ReapStep::Poll);
    assert_eq!(state.reap_polled(WaitOutcome::Exited(101)), ReapStep::Done(101));
    assert_eq!(state.exit_code(WaitOutcome::Other), Some(101));

    // The child is alive and has to be killed.
    let mut state = LinuxChildState::new(7);
    assert_eq!(state.reap_begin(), ReapStep::Poll);
    assert_eq!(state.reap_polled(WaitOutcome::Other), ReapStep::Kill);
    assert_eq!(state.reap_killed(killed_with(9).unwrap()), ReapStep::Done(9));
    assert_eq!(state.exit_code(WaitOutcome::Other), Some(9));

    // The kill did not go through: no exit status.
    let mut state = LinuxChildState::new(7);
    assert_eq!(state.reap_polled(WaitOutcome::Other), ReapStep::Kill);
    assert_eq!(
        state.reap_killed(KillAttempt { signal_error: None, waited: WaitOutcome::Other }),
        ReapStep::Failed(KillFailure::UnexpectedStatus)
    );
    assert_eq!(state.exit_code(WaitOutcome::Other), None);
}

fn run_child(outcomes: &[bool]) -> (ChildState, Vec<ChildAction>) {
    let mut state = ChildState::Unconfined;
    let mut actions = vec![];
    for ok in outcomes {
        actions.push(child_action(state));
        state = child_step(state, *ok);
    }
    (state, actions)
}

#[test]
fn child_runs_the_program_only_when_it_is_confined() {
    let (state, actions) = run_child(&[true, true, true, true, true]);
    assert_eq!(state, ChildState::Execd);
    assert_eq!(
        actions,
        vec![
            ChildAction::InstallDescriptors,
            ChildAction::ChangeDirectory,
            ChildAction::CommitConfinement,
            ChildAction::CloseDescriptors,
            ChildAction::Exec,
        ]
    );
    assert_eq!(child_action(ChildState::Execd), ChildAction::Nothing);
    // Closing descriptors cannot fail.
    assert_eq!(run_child(&[true, true, true, false, true]).0, ChildState::Execd);
    assert_eq!(run_child(&[true, true, true]).0, ChildState::ConfinementCommitted);
}

#[test]
fn child_ends_with_a_fixed_status_when_a_step_fails() {
    assert_eq!(run_child(&[false]).0, ChildState::Exited(253));
    assert_eq!(run_child(&[true, false]).0, ChildState::Exited(253));
    assert_eq!(run_child(&[true, true, false]).0, ChildState::Exited(255));
    assert_eq!(run_child(&[true, true, true, true, false]).0, ChildState::Exited(254));
    assert_eq!(run_child(&[true, true, false, true, true, true]).0, ChildState::Exited(255));
    assert_eq!(child_action(ChildState::Exited(254)), ChildAction::Exit(254));
}

#[test]
fn descriptors_that_are_not_kept_are_closed() {
    let keep: HashSet<i32> = [0, 1, 2, 7].into_iter().collect();
    assert_eq!(close_open_fds(&keep, 10), vec![3, 4, 5, 6, 8, 9]);
    assert_eq!(close_open_fds(&keep, 2), Vec::<i32>::new());
    assert_eq!(close_open_fds(&keep, 0), Vec::<i32>::new());
    assert_eq!(close_open_fds(&keep, -5), Vec::<i32>::new());
    assert_eq!(close_open_fds(&HashSet::new(), 3), vec![0, 1, 2]);
    assert!(must_close(&keep, 3));
    assert!(!must_close(&keep, 7));
    assert_eq!(descriptor_limit(None), 1024);
    assert_eq!(descriptor_limit(Some(65536)), 65536);
}
