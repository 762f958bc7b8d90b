//! Decisions behind the execution of the child process and the communication
//! with it.
//!
//! A launch is described by a [`spawn::LaunchEnv`].  The platform modules turn
//! it into everything that has to exist before the child is created, and track
//! the child afterwards.  When the handler of the communication has returned,
//! [`compose_outcome`] settles what the launch reports.

use vstd::prelude::*;
use vstd::string::StringExecFns;

pub mod bytes;
pub mod error;
pub mod spawn;
pub mod spawn_linux;
pub mod spawn_windows;

verus! {

/// What a launch reports once the handler has returned and the child was
/// reaped.
///
/// An error of the handler is the outcome whatever became of the child.  Where
/// the handler has nothing to complain of, an error in ending the child is the
/// outcome.  Else the launch reports the exit code of the child.
pub fn compose_outcome(handled: Result<(), error::IoError>, child: Result<i32, error::SandboxError>) -> (r:
    Result<i32, error::SandboxError>)
    ensures
        r == (match handled {
            Err(e) => Err::<i32, error::SandboxError>(error::SandboxError::Io(e)),
            Ok(_) => child,
        }),
{
    match handled {
        Err(e) => Err(error::SandboxError::Io(e)),
        Ok(_) => child,
    }
}

/// The last step on the way to the exit code of a child on Linux, as the
/// outcome of the child's part in a launch.  A way that was not gone to its
/// end counts as a child that could not be reaped.
pub fn child_outcome(step: spawn_linux::launch::ReapStep) -> (r: Result<i32, error::SandboxError>)
    ensures
        match step {
            spawn_linux::launch::ReapStep::Done(code) => r == Ok::<i32, error::SandboxError>(code),
            spawn_linux::launch::ReapStep::Failed(failure) => r matches Err(
                error::SandboxError::ProcessError(m),
            ) && m@ == failure.message(),
            _ => r matches Err(error::SandboxError::ProcessError(m)) && m@
                == "child was not reaped"@,
        },
{
    match step {
        spawn_linux::launch::ReapStep::Done(code) => Ok(code),
        spawn_linux::launch::ReapStep::Failed(failure) => Err(
            error::SandboxError::ProcessError(failure.into_io().message),
        ),
        _ => Err(error::SandboxError::ProcessError(String::from_str("child was not reaped"))),
    }
}

/// The last step on the way to the exit code of a process on Windows, as the
/// outcome of the process's part in a launch.  A way that was not gone to
/// its end counts as a process that could not be reaped.
pub fn process_outcome(step: spawn_windows::monitor::ReapStep) -> (r: Result<i32, error::SandboxError>)
    ensures
        match step {
            spawn_windows::monitor::ReapStep::Done(code) => r == Ok::<i32, error::SandboxError>(
                spawn_windows::monitor::exit_status_of(code),
            ),
            spawn_windows::monitor::ReapStep::Failed(_) => r matches Err(
                error::SandboxError::ProcessError(m),
            ) && m@ == "problem handling process"@,
            _ => r matches Err(error::SandboxError::ProcessError(m)) && m@
                == "process was not reaped"@,
        },
{
    match step {
        spawn_windows::monitor::ReapStep::Done(code) => Ok(spawn_windows::monitor::exit_status(code)),
        spawn_windows::monitor::ReapStep::Failed(_) => Err(
            error::SandboxError::ProcessError(String::from_str("problem handling process")),
        ),
        _ => Err(error::SandboxError::ProcessError(String::from_str("process was not reaped"))),
    }
}

} // verus!
