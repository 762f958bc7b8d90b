use grackle_zero::runtime::error::SandboxError;
use grackle_zero::runtime::spawn_windows::appcontainer::{AppContainer, CreateOutcome, ProfileStep};
use grackle_zero::runtime::spawn_windows::attribute_list::{
    Attribute, ThreadAttribute, ThreadAttributeHandles, ThreadAttributeList,
    ThreadAttributeSecurityCapabilities, PROC_THREAD_ATTRIBUTE_HANDLE_LIST,
    PROC_THREAD_ATTRIBUTE_SECURITY_CAPABILITIES,
};
use grackle_zero::runtime::spawn_windows::conv::{
    append_units, as_c_str_w, copy_units, strip_extended_prefix,
};
use grackle_zero::runtime::spawn_windows::error::{WinError, WindowsSandboxError};
use grackle_zero::runtime::spawn_windows::fd::{
    StdIo, StdIoFd, StdIoHandles, StdIoSet, StreamDirection, WinFd, WinFdSet,
};
use grackle_zero::runtime::spawn_windows::jail::{
    allowed_handle_list, launch_restricted, spawn_step, ContainerFacts, SpawnState,
};
use grackle_zero::runtime::spawn_windows::launch::{
    collect_handles, create_fds, launch_child, other_fds, WindowsChild,
};
use grackle_zero::runtime::spawn_windows::launch_quote::check_unique_keys;
use grackle_zero::runtime::process_outcome;
use grackle_zero::runtime::spawn_windows::monitor::{
    exit_status, MonitorFailure, ProcessInfo, ProcessState, ReapStep, STILL_ACTIVE,
};
use grackle_zero::runtime::spawn_windows::process_token::{
    build_powerful_sids_to_disable, restriction_flags, ProcessToken, WellKnownGroup,
    DISABLE_MAX_PRIVILEGE,
};
use grackle_zero::{Child, Fd, FdMode, FdSet};

fn w(s: &str) -> Vec<u16> {
    s.encode_utf16().collect()
}

fn text(units: &[u16]) -> String {
    String::from_utf16(units).unwrap()
}

fn block(entries: &[&str]) -> Vec<u16> {
    let mut ret = vec![];
    for e in entries {
        ret.extend_from_slice(&w(e));
        ret.push(0);
    }
    ret.push(0);
    ret
}

fn setup_message(e: WindowsSandboxError) -> String {
    match e {
        WindowsSandboxError::Sandbox(SandboxError::JailSetup(m)) => m,
        e => panic!("unexpected error variant: {:?}", e),
    }
}

fn jail_message(e: SandboxError) -> String {
    match e {
        SandboxError::JailSetup(m) => m,
        e => panic!("unexpected error variant: {:?}", e),
    }
}

#[test]
fn descriptors_are_sorted_into_standard_streams_and_pipes() {
    let plan = create_fds(&FdSet::from_vec(vec![
        Fd { fd: 1, mode: FdMode::FromChild },
        Fd { fd: 5, mode: FdMode::ToChild },
        Fd { fd: 0, mode: FdMode::KeepInChild },
        Fd { fd: 9, mode: FdMode::Null },
        Fd { fd: 7, mode: FdMode::FromChild },
        Fd { fd: 2, mode: FdMode::Null },
    ]))
    .ok()
    .unwrap();
    assert_eq!(plan.stdio.stdin, StdIo::PassThrough);
    assert_eq!(plan.stdio.stdout, StdIo::Pipe);
    assert_eq!(plan.stdio.stderr, StdIo::Unused);
    assert_eq!(plan.others, vec![(5, StreamDirection::ToChild), (7, StreamDirection::FromChild)]);

    let plan = create_fds(&FdSet::standard()).ok().unwrap();
    assert_eq!(
        (plan.stdio.stdin, plan.stdio.stdout, plan.stdio.stderr),
        (StdIo::Pipe, StdIo::Pipe, StdIo::Pipe)
    );
    assert!(plan.others.is_empty());
}

#[test]
fn descriptors_that_windows_cannot_serve_are_refused() {
    let refuse = |fd: u32, mode: FdMode| {
        jail_message(create_fds(&FdSet::from_vec(vec![Fd { fd, mode }])).err().unwrap())
    };
    assert_eq!(refuse(0, FdMode::FromChild), "stdio marked as read from child");
    assert_eq!(refuse(1, FdMode::ToChild), "stdout marked as write to child");
    assert_eq!(refuse(2, FdMode::ToChild), "stdout marked as write to child");
    assert_eq!(refuse(3, FdMode::KeepInChild), "windows cannot pass-through arbitrary handles");
    let twice = FdSet::from_vec(vec![
        Fd { fd: 5, mode: FdMode::ToChild },
        Fd { fd: 5, mode: FdMode::FromChild },
    ]);
    assert_eq!(jail_message(create_fds(&twice).err().unwrap()), "a descriptor is named twice");
    // The first entry that cannot be served decides.
    let fds = FdSet::from_vec(vec![
        Fd { fd: 4, mode: FdMode::KeepInChild },
        Fd { fd: 0, mode: FdMode::FromChild },
    ]);
    assert_eq!(
        jail_message(create_fds(&fds).err().unwrap()),
        "windows cannot pass-through arbitrary handles"
    );
}

#[test]
fn pipe_ends_are_dealt_out_by_direction() {
    let to_child = WinFd::new(5, StreamDirection::ToChild, 0x10, 0x20);
    assert_eq!((to_child.fd(), to_child.child()), (5, Some(0x10)));
    assert_eq!(to_child.parent_handle, Some(0x20));
    let from_child = WinFd::new(6, StreamDirection::FromChild, 0x10, 0x20);
    assert_eq!((from_child.child(), from_child.parent_handle), (Some(0x20), Some(0x10)));
    assert_eq!(from_child.direction(), StreamDirection::FromChild);

    let shared = WinFd::from_std(2, 0x30).unwrap();
    assert_eq!((shared.parent_handle, shared.child_handle), (None, Some(0x30)));
    assert_eq!(shared.direction, StreamDirection::FromChild);
    assert_eq!(WinFd::from_std(0, 1).unwrap().direction, StreamDirection::ToChild);
    let err = WinFd::from_std(3, 1).unwrap_err();
    assert_eq!((err.code, err.message.as_str()), (0, "invalid standard i/o number"));
}

#[test]
fn handles_are_told_as_fd_and_hex() {
    let fd = WinFd::new(1, StreamDirection::FromChild, 0x1f4, 0x1f8);
    assert_eq!(text(&fd.as_env_val().unwrap()), "1:0x1f8;");
    let fd = WinFd::new(4294967295, StreamDirection::ToChild, 0, 7);
    assert_eq!(text(&fd.as_env_val().unwrap()), "4294967295:0x0;");
    let fd = WinFd::new(10, StreamDirection::ToChild, 0xdead_beef, 7);
    assert_eq!(text(&fd.as_env_val().unwrap()), "10:0xdeadbeef;");
    let mut gone = fd;
    assert_eq!(gone.release(), vec![7, 0xdead_beef]);
    assert_eq!(gone.as_env_val(), None);
    assert_eq!(gone.release(), Vec::<usize>::new());
}

#[test]
fn parent_end_is_taken_once_and_only_in_its_direction() {
    let mut fd = WinFd::new(5, StreamDirection::ToChild, 1, 2);
    assert_eq!(fd.as_writer(), Some(2));
    assert_eq!(fd.as_writer(), None);
    let mut fd = WinFd::new(5, StreamDirection::ToChild, 1, 2);
    assert_eq!(fd.as_reader(), None);
    assert_eq!(fd.as_writer(), None);
    assert_eq!(fd.release(), vec![1]);
    let mut fd = WinFd::new(5, StreamDirection::FromChild, 1, 2);
    assert_eq!(fd.as_reader(), Some(1));
}

fn piped_set(others: Vec<WinFd>) -> WinFdSet {
    WinFdSet::new(
        StdIoSet { stdin: StdIo::Pipe, stdout: StdIo::Pipe, stderr: StdIo::PassThrough },
        StdIoHandles::Pipe(0x10, 0x11),
        StdIoHandles::Pipe(0x20, 0x21),
        StdIoHandles::Duplicate(0x30),
        others,
    )
    .ok()
    .unwrap()
}

#[test]
fn standard_streams_are_made_from_their_handles() {
    let set = piped_set(vec![]);
    assert_eq!(
        set.stdin(),
        StdIoFd::Pipe(WinFd {
            fd: 0,
            parent_handle: Some(0x11),
            child_handle: Some(0x10),
            direction: StreamDirection::ToChild
        })
    );
    assert_eq!(
        set.stdout(),
        StdIoFd::Pipe(WinFd {
            fd: 1,
            parent_handle: Some(0x20),
            child_handle: Some(0x21),
            direction: StreamDirection::FromChild
        })
    );
    assert_eq!(
        set.stderr(),
        StdIoFd::Pipe(WinFd {
            fd: 2,
            parent_handle: None,
            child_handle: Some(0x30),
            direction: StreamDirection::FromChild
        })
    );
    let unused = WinFdSet::new(
        StdIoSet { stdin: StdIo::Unused, stdout: StdIo::Unused, stderr: StdIo::Unused },
        StdIoHandles::Nothing,
        StdIoHandles::Pipe(1, 2),
        StdIoHandles::Duplicate(3),
        vec![],
    )
    .ok()
    .unwrap();
    assert_eq!((unused.stdin(), unused.stdout(), unused.stderr()), (StdIoFd::Unused, StdIoFd::Unused, StdIoFd::Unused));
    let err = WinFdSet::new(
        StdIoSet { stdin: StdIo::Pipe, stdout: StdIo::Unused, stderr: StdIo::Unused },
        StdIoHandles::Duplicate(1),
        StdIoHandles::Nothing,
        StdIoHandles::Nothing,
        vec![],
    )
    .err()
    .unwrap();
    assert_eq!(setup_message(err), "handles do not match the standard stream");
}

fn others() -> Vec<WinFd> {
    let plan = create_fds(&FdSet::from_vec(vec![
        Fd { fd: 3, mode: FdMode::ToChild },
        Fd { fd: 4, mode: FdMode::FromChild },
    ]))
    .ok()
    .unwrap();
    other_fds(&plan, &vec![(0x40, 0x41), (0x50, 0x51)]).ok().unwrap()
}

#[test]
fn other_descriptors_get_their_pipes() {
    let fds = others();
    assert_eq!(fds[0], WinFd::new(3, StreamDirection::ToChild, 0x40, 0x41));
    assert_eq!(fds[1], WinFd::new(4, StreamDirection::FromChild, 0x50, 0x51));
    let (handles, value) = collect_handles(&fds);
    assert_eq!(handles, vec![0x40, 0x51]);
    assert_eq!(text(&value), "3:0x40;4:0x51;");
    let plan = create_fds(&FdSet::from_vec(vec![Fd { fd: 3, mode: FdMode::ToChild }])).ok().unwrap();
    assert_eq!(
        jail_message(other_fds(&plan, &vec![]).err().unwrap()),
        "problem setting up fd: pipes do not match"
    );
}

#[test]
fn launch_names_a_placeholder_and_tells_the_handles() {
    let set = piped_set(others());
    let launch = launch_child(&vec![w("1"), w("two words")], vec![(w("RUST_BACKTRACE"), w("1"))], &set)
        .ok()
        .unwrap();
    assert_eq!(text(&launch.cmdline), "command.com 1 \"two words\"\0");
    assert_eq!(
        launch.environ,
        vec![(w("RUST_BACKTRACE"), w("1")), (w("SANDBOX_HANDLES"), w("3:0x40;4:0x51;"))]
    );
    assert_eq!(launch.handles, vec![0x40, 0x51]);
    assert_eq!((launch.stdin, launch.stdout, launch.stderr), (Some(0x10), Some(0x21), Some(0x30)));

    assert!(launch_child(&vec![vec![0]], vec![], &set).is_err());
    assert_eq!(
        jail_message(launch_child(&vec![], vec![(w("K"), vec![b'v' as u16, 0])], &set).err().unwrap()),
        "nul byte found in value"
    );
}

fn facts() -> ContainerFacts {
    ContainerFacts {
        folder: w("C:\\Users\\u\\AppData\\Local\\Packages\\gz\\AC"),
        system_root: Some(w("C:\\Windows")),
        windir: None,
    }
}

#[test]
fn process_is_created_suspended_with_the_forced_environment() {
    let env = vec![
        (w("Temp"), w("C:\\caller\\temp")),
        (w("windir"), w("D:\\W")),
        (w("Zed"), w("z")),
        (w("LOCALAPPDATA"), w("C:\\caller")),
    ];
    let plan = launch_restricted(
        &w("C:\\bin\\tool.exe"),
        &w("command.com 1\0"),
        &w("C:\\work"),
        env,
        Some(0x10),
        None,
        Some(0x30),
        &vec![0x40],
        0x5151,
        &facts(),
    )
    .ok()
    .unwrap();
    assert_eq!(text(&plan.app), "C:\\bin\\tool.exe\0");
    assert_eq!(text(&plan.cwd), "C:\\work\0");
    assert_eq!(text(&plan.cmdline), "command.com 1\0");
    assert_eq!(
        plan.env_block,
        block(&[
            "LOCALAPPDATA=C:\\Users\\u\\AppData\\Local\\Packages\\gz\\AC",
            "Path=C:\\Windows;C:\\Windows\\System32",
            "SystemRoot=C:\\Windows",
            "TEMP=C:\\Users\\u\\AppData\\Local\\Packages\\gz\\AC\\Temp",
            "TMP=C:\\Users\\u\\AppData\\Local\\Packages\\gz\\AC\\Temp",
            "Windir=",
            "Zed=z",
        ])
    );
    assert_eq!((plan.stdin, plan.stdout, plan.stderr), (Some(0x10), None, Some(0x30)));
    assert!(plan.inherit_handles);
    assert_eq!(plan.creation_flags, 0x0008_0404);
    assert_eq!(plan.creation_flags & 0x4, 0x4);
    assert_eq!(plan.startup_flags, 0x100);
    assert_eq!(plan.job_limit_flags, 0x2008);
    assert_eq!(plan.active_process_limit, 1);
    let attributes = plan.attributes.list();
    assert_eq!(attributes.len(), 2);
    match &attributes[0] {
        Attribute::Handles(h) => assert_eq!(h.handles, vec![0x40, 0x10, 0x30]),
        _ => panic!("unexpected attribute"),
    }
    match &attributes[1] {
        Attribute::SecurityCapabilities(c) => {
            assert_eq!((c.app_container_sid, c.capability_count), (0x5151, 0))
        }
        _ => panic!("unexpected attribute"),
    }
}

#[test]
fn defaults_are_taken_from_the_parent_where_the_caller_names_none() {
    let mut facts = facts();
    facts.system_root = None;
    facts.windir = Some(w("E:\\Win"));
    let plan = launch_restricted(
        &w("t"),
        &w("t\0"),
        &w("."),
        vec![(w("Other"), w("C:\\only"))],
        None,
        Some(1),
        None,
        &vec![],
        1,
        &facts,
    )
    .ok()
    .unwrap();
    assert_eq!(
        plan.env_block,
        block(&[
            "LOCALAPPDATA=C:\\Users\\u\\AppData\\Local\\Packages\\gz\\AC",
            "Other=C:\\only",
            "Path=;\\System32",
            "SystemRoot=",
            "TEMP=C:\\Users\\u\\AppData\\Local\\Packages\\gz\\AC\\Temp",
            "TMP=C:\\Users\\u\\AppData\\Local\\Packages\\gz\\AC\\Temp",
            "Windir=E:\\Win",
        ])
    );
}

#[test]
fn forced_variables_replace_the_callers_in_any_letter_case() {
    let mut facts = facts();
    facts.windir = Some(w("C:\\Windows"));
    let env = vec![
        (w("PATH"), w("C:\\caller\\bin")),
        (w("systemroot"), w("X:\\fake")),
        (w("keep"), w("1")),
        (w("WinDir"), w("X:\\fake")),
        (w("path"), w("C:\\caller\\bin2")),
        (w("LocalAppData"), w("X:\\fake")),
        (w("tmp"), vec![b'x' as u16, 0]),
        (w("TEMP"), w("X:\\fake")),
        (w("Also"), w("2")),
    ];
    let plan =
        launch_restricted(&w("t"), &w("t\0"), &w("."), env, Some(1), None, None, &vec![], 1, &facts)
            .ok()
            .unwrap();
    assert_eq!(
        plan.env_block,
        block(&[
            "Also=2",
            "keep=1",
            "LOCALAPPDATA=C:\\Users\\u\\AppData\\Local\\Packages\\gz\\AC",
            "Path=C:\\Windows;C:\\Windows\\System32",
            "SystemRoot=C:\\Windows",
            "TEMP=C:\\Users\\u\\AppData\\Local\\Packages\\gz\\AC\\Temp",
            "TMP=C:\\Users\\u\\AppData\\Local\\Packages\\gz\\AC\\Temp",
            "Windir=C:\\Windows",
        ])
    );
}

#[test]
fn process_needs_a_handle_and_an_environment_without_nul() {
    let launch = |env: Vec<(Vec<u16>, Vec<u16>)>, stdin: Option<usize>| {
        launch_restricted(&w("t"), &w("t\0"), &w("."), env, stdin, None, None, &vec![], 1, &facts())
    };
    assert_eq!(setup_message(launch(vec![], None).err().unwrap()), "must have at least 1 handle");
    assert_eq!(
        setup_message(launch(vec![(w("K"), vec![0])], Some(1)).err().unwrap()),
        "nul byte found in value"
    );
    assert_eq!(allowed_handle_list(&vec![4, 5], Some(1), None, Some(3)).ok().unwrap(), vec![4, 5, 1, 3]);
    assert!(allowed_handle_list(&vec![], None, None, None).is_err());
}

#[test]
fn variable_that_is_named_twice_is_refused() {
    assert!(check_unique_keys(&vec![(w("A"), w("1")), (w("B"), w("2"))]).is_ok());
    assert_eq!(
        jail_message(check_unique_keys(&vec![(w("Key"), w("1")), (w("kEY"), w("2"))]).err().unwrap()),
        "a variable is named twice"
    );
    let set = piped_set(others());
    assert_eq!(
        jail_message(
            launch_child(&vec![], vec![(w("sandbox_handles"), w("mine"))], &set).err().unwrap()
        ),
        "a variable is named twice"
    );
    let launch = |env: Vec<(Vec<u16>, Vec<u16>)>| {
        launch_restricted(&w("t"), &w("t\0"), &w("."), env, Some(1), None, None, &vec![], 1, &facts())
    };
    assert_eq!(
        setup_message(launch(vec![(w("Dup"), w("1")), (w("DUP"), w("2"))]).err().unwrap()),
        "a variable is named twice"
    );
    // Two of the caller's variables that the launch decides do not count.
    assert!(launch(vec![(w("Path"), w("1")), (w("PATH"), w("2"))]).is_ok());
}

#[test]
fn process_is_set_going_only_inside_its_job() {
    let mut state = SpawnState::Prepared;
    let mut seen = vec![];
    for _ in 0..5 {
        state = spawn_step(state, true);
        seen.push(state);
    }
    assert_eq!(
        seen,
        vec![
            SpawnState::Suspended,
            SpawnState::JobCreated,
            SpawnState::JobLimited,
            SpawnState::Assigned,
            SpawnState::Running,
        ]
    );
    assert_eq!(spawn_step(SpawnState::JobLimited, false), SpawnState::Failed);
    assert_eq!(spawn_step(SpawnState::Prepared, false), SpawnState::Failed);
    assert_eq!(spawn_step(SpawnState::Failed, true), SpawnState::Failed);
}

fn child() -> WindowsChild {
    WindowsChild::new(ProcessInfo { process: 1, thread: 2, job: 3 }, piped_set(others()))
}

#[test]
fn standard_streams_are_taken_in_their_direction_only() {
    let mut c = child();
    assert_eq!(c.take_stream_from_child(0), None);
    assert_eq!(c.take_stream_to_child(0), Some(0x11));
    assert_eq!(c.take_stream_to_child(0), None);
    assert_eq!(c.take_stream_to_child(1), None);
    assert_eq!(c.take_stream_from_child(1), Some(0x20));
    assert_eq!(c.take_stream_from_child(1), None);
    // Standard error is shared with the parent: there is nothing to take.
    assert_eq!(c.take_stream_to_child(2), None);
    assert_eq!(c.take_stream_from_child(2), None);
}

#[test]
fn other_streams_are_taken_once() {
    let mut c = child();
    assert_eq!(c.take_stream_to_child(3), Some(0x41));
    assert_eq!(c.take_stream_to_child(3), None);
    assert_eq!(c.take_stream_from_child(3), None);
    assert_eq!(c.take_stream_to_child(4), None);
    // Used up by the taking that asked for the wrong direction.
    assert_eq!(c.take_stream_from_child(4), None);
    assert_eq!(c.take_stream_from_child(99), None);
}

#[test]
fn termination_is_sent_once() {
    let mut state = ProcessState::new(ProcessInfo { process: 1, thread: 2, job: 3 });
    assert!(state.needs_terminate());
    assert_eq!(state.terminate(None), Err(MonitorFailure::NotAttempted));
    assert_eq!(state.terminate(Some(Err(5))), Err(MonitorFailure::Interrupted(5)));
    assert!(state.needs_terminate());
    assert_eq!(state.terminate(Some(Ok(()))), Ok(()));
    assert!(!state.needs_terminate());
    assert_eq!(state.terminate(None), Ok(()));
    assert_eq!(state.terminate(Some(Err(5))), Ok(()));

    let mut c = child();
    assert_eq!(c.terminate(Some(Ok(()))), Ok(()));
    assert_eq!(c.terminate(None), Ok(()));
    assert_eq!(c.exit_status(Some(Ok(255))), Some(255));
    assert_eq!(c.exit_status(None), Some(255));
    assert!(c.state().terminated);
}

#[test]
fn exit_code_is_asked_for_until_the_process_has_ended() {
    let mut state = ProcessState::new(ProcessInfo { process: 1, thread: 2, job: 3 });
    assert!(state.needs_query());
    assert_eq!(state.exit_code(None), Err(MonitorFailure::NotAttempted));
    assert_eq!(state.exit_code(Some(Err(6))), Err(MonitorFailure::Interrupted(6)));
    assert_eq!(state.exit_code(Some(Ok(STILL_ACTIVE))), Ok(None));
    assert_eq!(state.exit_code(Some(Ok(0xc000_0005))), Ok(Some(0xc000_0005)));
    assert_eq!(state.exit_code(Some(Ok(0))), Ok(Some(0xc000_0005)));
    assert_eq!(state.exit_code(None), Ok(Some(0xc000_0005)));
    assert_eq!(exit_status(0xc000_0005), -1073741819);
    assert_eq!(exit_status(101), 101);
    assert_eq!(exit_status(u32::MAX), -1);
    let mut c = child();
    assert_eq!(c.exit_status(Some(Ok(STILL_ACTIVE))), None);
    assert_eq!(c.exit_status(Some(Err(1))), None);
}

#[test]
fn exit_code_is_known_after_the_handler_returned() {
    let fresh = || ProcessState::new(ProcessInfo { process: 1, thread: 2, job: 3 });
    // The process has ended by itself.
    let mut state = fresh();
    assert_eq!(state.reap_begin(), ReapStep::Query);
    assert_eq!(state.reap_queried(Ok(0)), ReapStep::Done(0));
    assert_eq!(state.reap_begin(), ReapStep::Done(0));
    assert_eq!(state.exit_code(None), Ok(Some(0)));
    // The process runs and is terminated.
    let mut state = fresh();
    assert_eq!(state.reap_queried(Ok(STILL_ACTIVE)), ReapStep::Terminate);
    assert_eq!(state.reap_terminated(Ok(()), Ok(255)), ReapStep::Done(255));
    assert!(state.terminated);
    assert_eq!(state.exit_code(None), Ok(Some(255)));
    // The way fails.
    let mut state = fresh();
    assert_eq!(state.reap_queried(Err(5)), ReapStep::Failed(MonitorFailure::Interrupted(5)));
    assert_eq!(
        state.reap_terminated(Err(6), Ok(255)),
        ReapStep::Failed(MonitorFailure::Interrupted(6))
    );
    assert_eq!(
        state.reap_terminated(Ok(()), Ok(STILL_ACTIVE)),
        ReapStep::Failed(MonitorFailure::StillActive)
    );
    assert_eq!(
        fresh().reap_terminated(Ok(()), Err(7)),
        ReapStep::Failed(MonitorFailure::Interrupted(7))
    );
    assert!(matches!(process_outcome(ReapStep::Done(0xc000_0005)), Ok(-1073741819)));
    match process_outcome(ReapStep::Failed(MonitorFailure::StillActive)) {
        Err(SandboxError::ProcessError(m)) => assert_eq!(m, "problem handling process"),
        _ => panic!("unexpected outcome"),
    }
    match process_outcome(ReapStep::Query) {
        Err(SandboxError::ProcessError(m)) => assert_eq!(m, "process was not reaped"),
        _ => panic!("unexpected outcome"),
    }
}

#[test]
fn handles_are_closed_once() {
    let mut state = ProcessState::new(ProcessInfo { process: 1, thread: 2, job: 3 });
    assert_eq!(state.release(), vec![2, 1, 3]);
    assert_eq!(state.release(), Vec::<usize>::new());
    let mut state = ProcessState::new(ProcessInfo { process: 0, thread: 2, job: 0 });
    assert_eq!(state.release(), vec![2]);

    let mut token = ProcessToken::current_process(0x77);
    assert_eq!(token.handle(), Some(0x77));
    assert_eq!(token.close(), Some(0x77));
    assert_eq!(token.close(), None);
    assert_eq!(token.handle(), None);
}

#[test]
fn restricted_token_is_made_from_an_open_token() {
    let token = ProcessToken::current_process(0x77);
    let restricted = token.create_restricted_token(Some(Ok(0x88))).ok().unwrap();
    assert_eq!(restricted.handle(), Some(0x88));
    let failure = WinError { code: -2147024891, message: "Access is denied.".to_string() };
    match token.create_restricted_token(Some(Err(failure))) {
        Err(WindowsSandboxError::Setup(e)) => assert_eq!(e.code, -2147024891),
        _ => panic!("unexpected outcome"),
    }
    assert!(token.create_restricted_token(None).is_err());
    let mut closed = ProcessToken::current_process(1);
    closed.close();
    assert_eq!(
        setup_message(closed.create_restricted_token(Some(Ok(2))).err().unwrap()),
        "already closed handle"
    );
    assert_eq!(restriction_flags(), 1);
    assert_eq!(restriction_flags(), DISABLE_MAX_PRIVILEGE);
    assert_eq!(
        build_powerful_sids_to_disable(),
        vec![
            WellKnownGroup::Administrators,
            WellKnownGroup::PowerUsers,
            WellKnownGroup::BackupOperators,
            WellKnownGroup::AccountOperators,
            WellKnownGroup::PrintOperators,
            WellKnownGroup::NetworkConfigurationOperators,
            WellKnownGroup::RemoteDesktopUsers,
        ]
    );
}

#[test]
fn profile_names_count_up_when_a_name_is_taken() {
    let name = w("grackle-zero");
    assert_eq!(text(&AppContainer::profile_name(&name, 0)), "grackle-zero");
    assert_eq!(text(&AppContainer::profile_name(&name, 1)), "grackle-zero0");
    assert_eq!(text(&AppContainer::profile_name(&name, 2)), "grackle-zero1");
    assert_eq!(text(&AppContainer::profile_name(&name, 124)), "grackle-zero123");
    match AppContainer::new(0, CreateOutcome::AlreadyExists) {
        ProfileStep::Retry(next) => assert_eq!(next, 1),
        _ => panic!("unexpected step"),
    }
    assert!(matches!(AppContainer::new(u32::MAX, CreateOutcome::AlreadyExists), ProfileStep::Failed(_)));
    match AppContainer::new(3, CreateOutcome::Created(0x5151)) {
        ProfileStep::Ready(mut c) => {
            assert_eq!(c.sid(), Some(0x5151));
            assert_eq!(c.sid_for_folder().ok(), Some(0x5151));
            assert_eq!(c.release(), Some(0x5151));
            assert_eq!(c.release(), None);
            assert_eq!(
                setup_message(c.sid_for_folder().err().unwrap()),
                "AppContainer already dropped"
            );
        }
        _ => panic!("unexpected step"),
    }
    let failure = WinError { code: 5, message: "denied".to_string() };
    match AppContainer::new(0, CreateOutcome::Failed(failure)) {
        ProfileStep::Failed(WindowsSandboxError::Setup(e)) => assert_eq!(e.message, "denied"),
        _ => panic!("unexpected step"),
    }
}

#[test]
fn attribute_list_keeps_the_valid_attributes() {
    let handles = |h: Vec<usize>| Attribute::Handles(ThreadAttributeHandles { handles: h });
    let caps = || {
        Attribute::SecurityCapabilities(ThreadAttributeSecurityCapabilities {
            app_container_sid: 9,
            capability_count: 0,
        })
    };
    let list = ThreadAttributeList::new(vec![handles(vec![]), caps(), handles(vec![1, 2]), handles(vec![])]);
    assert!(!list.is_empty());
    let kept = list.list();
    assert_eq!(kept.len(), 2);
    assert_eq!(kept[0].attribute(), PROC_THREAD_ATTRIBUTE_SECURITY_CAPABILITIES);
    assert_eq!(kept[1].attribute(), PROC_THREAD_ATTRIBUTE_HANDLE_LIST);
    assert_eq!((kept[0].attribute(), kept[1].attribute()), (0x0002_0009, 0x0002_0002));
    assert_eq!(kept[1].cb_size(), 2 * std::mem::size_of::<usize>());
    assert_eq!(kept[0].cb_size(), 2 * std::mem::size_of::<usize>() + 8);
    assert!(kept[0].valid() && kept[1].valid());
    assert!(!handles(vec![]).valid());
    assert!(ThreadAttributeList::new(vec![handles(vec![])]).is_empty());
    assert!(ThreadAttributeList::new(vec![]).is_empty());
}

#[test]
fn windows_errors_become_sandbox_errors() {
    let failure = || WinError { code: 5, message: "Access is denied.".to_string() };
    match WindowsSandboxError::setup(failure()).into_sandbox() {
        SandboxError::JailSetup(m) => {
            assert_eq!(m, "problem setting up the process: Access is denied.")
        }
        e => panic!("unexpected error variant: {:?}", e),
    }
    match WindowsSandboxError::run(failure()).into_sandbox() {
        SandboxError::ProcessError(m) => assert_eq!(m, "problem handling process: Access is denied."),
        e => panic!("unexpected error variant: {:?}", e),
    }
    match WindowsSandboxError::setup_message("reason").into_sandbox() {
        SandboxError::JailSetup(m) => assert_eq!(m, "reason"),
        e => panic!("unexpected error variant: {:?}", e),
    }
    assert!(matches!(WindowsSandboxError::from(failure()), WindowsSandboxError::Setup(_)));
}

#[test]
fn wide_strings() {
    assert_eq!(as_c_str_w(&w("ab")), vec![0x61, 0x62, 0]);
    assert_eq!(as_c_str_w(&vec![]), vec![0]);
    let mut out = w("Pa");
    append_units(&mut out, &w("th"));
    assert_eq!(out, w("Path"));
    assert_eq!(copy_units(&out), w("Path"));
    assert_eq!(text(&strip_extended_prefix(&w("\\\\?\\C:\\dir\\tool.exe"))), "C:\\dir\\tool.exe");
    assert_eq!(text(&strip_extended_prefix(&w("C:\\dir"))), "C:\\dir");
    assert_eq!(text(&strip_extended_prefix(&w("\\\\?"))), "\\\\?");
    assert_eq!(text(&strip_extended_prefix(&w("\\\\?\\"))), "");
}
