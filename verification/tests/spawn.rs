use grackle_zero::runtime::error::{IoError, IoErrorKind, SandboxError};
use grackle_zero::runtime::{child_outcome, compose_outcome};
use grackle_zero::runtime::spawn_linux::launch::{KillFailure, ReapStep};
use grackle_zero::{Fd, FdMode, FdSet};
use std::collections::HashMap;

#[test]
fn basic_numbers_the_descriptors_in_order() {
    let set = FdSet::basic(&[FdMode::ToChild, FdMode::FromChild, FdMode::KeepInChild, FdMode::Null]);
    assert_eq!(set.len(), 4);
    assert_eq!(
        set.modes(),
        vec![
            Fd { fd: 0, mode: FdMode::ToChild },
            Fd { fd: 1, mode: FdMode::FromChild },
            Fd { fd: 2, mode: FdMode::KeepInChild },
            Fd { fd: 3, mode: FdMode::Null },
        ]
    );
    assert_eq!(FdSet::basic(&[]).len(), 0);
}

#[test]
fn standard_set_is_stdin_stdout_stderr() {
    assert_eq!(
        FdSet::standard().modes(),
        vec![
            Fd { fd: 0, mode: FdMode::ToChild },
            Fd { fd: 1, mode: FdMode::FromChild },
            Fd { fd: 2, mode: FdMode::FromChild },
        ]
    );
}

#[test]
fn from_vec_keeps_the_list() {
    let fds = vec![Fd { fd: 9, mode: FdMode::FromChild }, Fd { fd: 4, mode: FdMode::Null }];
    assert_eq!(FdSet::from_vec(fds.clone()).modes(), fds);
}

#[test]
fn from_map_holds_every_entry_once() {
    let mut map = HashMap::new();
    map.insert(7u32, FdMode::ToChild);
    map.insert(3u32, FdMode::FromChild);
    map.insert(0u32, FdMode::Null);
    let mut fds = FdSet::from_map(map).modes();
    fds.sort_by_key(|f| f.fd);
    assert_eq!(
        fds,
        vec![
            Fd { fd: 0, mode: FdMode::Null },
            Fd { fd: 3, mode: FdMode::FromChild },
            Fd { fd: 7, mode: FdMode::ToChild },
        ]
    );
}

#[test]
fn sandbox_errors_map_to_io_kinds() {
    let io: IoError = SandboxError::ProcessError("p".to_string()).into();
    assert_eq!((io.kind, io.message.as_str()), (IoErrorKind::Unsupported, "p"));
    let io: IoError = SandboxError::JailSetup("j".to_string()).into();
    assert_eq!((io.kind, io.message.as_str()), (IoErrorKind::InvalidInput, "j"));
    let io: IoError = SandboxError::JailNotSupported("n".to_string()).into();
    assert_eq!((io.kind, io.message.as_str()), (IoErrorKind::NotSeekable, "n"));
    let io: IoError = SandboxError::Io(IoError::new(IoErrorKind::BrokenPipe, "b")).into();
    assert_eq!((io.kind, io.message.as_str()), (IoErrorKind::BrokenPipe, "b"));
    match SandboxError::from(IoError::new(IoErrorKind::Other, "o")) {
        SandboxError::Io(e) => assert_eq!(e.kind, IoErrorKind::Other),
        e => panic!("unexpected error variant: {:?}", e),
    }
    match SandboxError::not_found("ls") {
        SandboxError::Io(e) => assert_eq!((e.kind, e.message.as_str()), (IoErrorKind::NotFound, "ls")),
        e => panic!("unexpected error variant: {:?}", e),
    }
    match SandboxError::interior_nul() {
        SandboxError::Io(e) => assert_eq!(e.kind, IoErrorKind::InvalidFilename),
        e => panic!("unexpected error variant: {:?}", e),
    }
    assert_eq!(SandboxError::JailSetup("x".to_string()).to_string(), "sandbox error");
}

#[test]
fn handler_errors_come_before_child_errors_and_child_errors_before_ok() {
    let handler_failed = || Err(IoError::new(IoErrorKind::BrokenPipe, "handler"));
    let child_failed = || Err(SandboxError::ProcessError("child".to_string()));
    match compose_outcome(Ok(()), Ok(7)) {
        Ok(code) => assert_eq!(code, 7),
        Err(e) => panic!("unexpected error: {:?}", e),
    }
    match compose_outcome(handler_failed(), Ok(0)) {
        Err(SandboxError::Io(e)) => assert_eq!(e.message, "handler"),
        r => panic!("unexpected outcome: {:?}", r),
    }
    match compose_outcome(Ok(()), child_failed()) {
        Err(SandboxError::ProcessError(m)) => assert_eq!(m, "child"),
        r => panic!("unexpected outcome: {:?}", r),
    }
    match compose_outcome(handler_failed(), child_failed()) {
        Err(SandboxError::Io(e)) => assert_eq!(e.kind, IoErrorKind::BrokenPipe),
        r => panic!("unexpected outcome: {:?}", r),
    }
}

#[test]
fn reap_steps_become_outcomes() {
    assert!(matches!(child_outcome(ReapStep::Done(3)), Ok(3)));
    match child_outcome(ReapStep::Failed(KillFailure::UnexpectedStatus)) {
        Err(SandboxError::ProcessError(m)) => {
            assert_eq!(m, "unexpected wait status after killing child")
        }
        r => panic!("unexpected outcome: {:?}", r),
    }
    match child_outcome(ReapStep::Poll) {
        Err(SandboxError::ProcessError(m)) => assert_eq!(m, "child was not reaped"),
        r => panic!("unexpected outcome: {:?}", r),
    }
    assert!(matches!(child_outcome(ReapStep::Kill), Err(SandboxError::ProcessError(_))));
}
