//! Allows monitoring the state of the launched process.

use super::win32::still_active;
use vstd::prelude::*;

verus! {

/// The exit code that Windows reports for a process that still runs.
pub const STILL_ACTIVE: u32 = 259;

/// The exit code that a process is given when it is terminated.
pub const TERMINATION_EXIT_CODE: u32 = 255;

/// The handles of a launched process: the process, its first thread, and the
/// job that holds it.  A handle that is given up is 0.
#[derive(Debug, Clone, Copy, PartialEq, Eq, Structural)]
pub struct ProcessInfo {
    pub process: usize,
    pub thread: usize,
    pub job: usize,
}

/// Why the process could not be asked or ended.
#[derive(Debug, Clone, Copy, PartialEq, Eq, Structural)]
pub enum MonitorFailure {
    /// The system has to be called, and the caller did not try.
    NotAttempted,
    /// The call failed, with this result code.
    Interrupted(i32),
    /// The process was terminated and still counts as running.
    StillActive,
}

/// What the caller has to do next to learn the exit code when the handler has
/// returned.
#[derive(Debug, Clone, Copy, PartialEq, Eq, Structural)]
pub enum ReapStep {
    /// The exit code is known.
    Done(u32),
    /// Ask the system for the exit code, and report with `reap_queried`.
    Query,
    /// Terminate the job, wait for the process to end, ask for the exit code,
    /// and report with `reap_terminated`.
    Terminate,
    /// The process could not be asked or ended.
    Failed(MonitorFailure),
}

/// What is known of a launched process: whether it was terminated, and its
/// exit code once it was seen to have ended.  Whoever shares the record guards
/// it with one lock.
#[derive(Debug, Clone, Copy, PartialEq, Eq, Structural)]
pub struct ProcessState {
    pub terminated: bool,
    pub exit_code: Option<u32>,
    pub info: ProcessInfo,
}

/// A handle as the list of what is to be closed for it: nothing where the
/// handle was given up.
pub open spec fn held(handle: usize) -> Seq<usize> {
    if handle != 0 {
        seq![handle]
    } else {
        Seq::empty()
    }
}

/// An exit code as the signed number that a launch reports.
pub open spec fn exit_status_of(code: u32) -> i32 {
    if code <= i32::MAX {
        code as i32
    } else {
        (code - 0x1_0000_0000) as i32
    }
}

impl ProcessState {
    /// The record after a termination, and what the termination is reported
    /// as.  `job_terminated` tells how the termination of the job went, where
    /// the caller tried.
    pub open spec fn after_terminate(self, job_terminated: Option<Result<(), i32>>) -> (
        ProcessState,
        Result<(), MonitorFailure>,
    ) {
        if self.terminated {
            (self, Ok(()))
        } else {
            match job_terminated {
                None => (self, Err(MonitorFailure::NotAttempted)),
                Some(Err(code)) => (self, Err(MonitorFailure::Interrupted(code))),
                Some(Ok(_)) => (ProcessState { terminated: true, ..self }, Ok(())),
            }
        }
    }

    /// The record after a question for the exit code, and the answer.
    /// `queried` tells what the system said, where the caller asked it.
    pub open spec fn after_query(self, queried: Option<Result<u32, i32>>) -> (
        ProcessState,
        Result<Option<u32>, MonitorFailure>,
    ) {
        match self.exit_code {
            Some(code) => (self, Ok(Some(code))),
            None => match queried {
                None => (self, Err(MonitorFailure::NotAttempted)),
                Some(Err(code)) => (self, Err(MonitorFailure::Interrupted(code))),
                Some(Ok(code)) => if code == STILL_ACTIVE {
                    (self, Ok(None))
                } else {
                    (ProcessState { exit_code: Some(code), ..self }, Ok(Some(code)))
                },
            },
        }
    }

    pub fn new(info: ProcessInfo) -> (state: ProcessState)
        ensures
            state == (ProcessState { terminated: false, exit_code: None, info }),
    {
        ProcessState { terminated: false, exit_code: None, info }
    }

    /// Tells whether the job has to be terminated to end the process: not
    /// where that was done already.
    pub fn needs_terminate(&self) -> (r: bool)
        ensures
            r == !self.terminated,
    {
        !self.terminated
    }

    /// Terminate the process.
    /// This will only send the termination once: a process that counts as
    /// terminated is not touched again.  The job is terminated rather than the
    /// process, which also ends whatever the process has started.
    pub fn terminate(&mut self, job_terminated: Option<Result<(), i32>>) -> (r: Result<
        (),
        MonitorFailure,
    >)
        ensures
            (*final(self), r) == old(self).after_terminate(job_terminated),
    {
        if !self.terminated {
            match job_terminated {
                None => {
                    return Err(MonitorFailure::NotAttempted);
                },
                Some(Err(code)) => {
                    return Err(MonitorFailure::Interrupted(code));
                },
                Some(Ok(_)) => {
                    self.terminated = true;
                },
            }
        }
        Ok(())
    }

    /// Tells whether the system has to be asked for the exit code: not where
    /// the code is known already.
    pub fn needs_query(&self) -> (r: bool)
        ensures
            r == (self.exit_code is None),
    {
        self.exit_code.is_none()
    }

    /// Get the exit code for the process, or None if it hasn't exited yet.
    pub fn exit_code(&mut self, queried: Option<Result<u32, i32>>) -> (r: Result<
        Option<u32>,
        MonitorFailure,
    >)
        ensures
            (*final(self), r) == old(self).after_query(queried),
    {
        match self.exit_code {
            Some(c) => Ok(Some(c)),
            None => {
                match queried {
                    None => Err(MonitorFailure::NotAttempted),
                    Some(Err(code)) => Err(MonitorFailure::Interrupted(code)),
                    Some(Ok(code)) => {
                        if code == still_active() {
                            Ok(None)
                        } else {
                            self.exit_code = Some(code);
                            Ok(Some(code))
                        }
                    },
                }
            },
        }
    }

    /// The record and the answer at the end of the way to the exit code that
    /// is gone once the handler has returned: a code that is known is the
    /// answer; else the system is asked, and the process terminated and asked
    /// for again where it still runs.
    pub open spec fn after_reap(
        self,
        queried: Result<u32, i32>,
        job_terminated: Result<(), i32>,
        queried_again: Result<u32, i32>,
    ) -> (ProcessState, Result<u32, MonitorFailure>) {
        let (asked, first) = self.after_query(Some(queried));
        match first {
            Ok(Some(code)) => (asked, Ok(code)),
            Err(failure) => (asked, Err(failure)),
            Ok(None) => {
                let (ended, done) = asked.after_terminate(Some(job_terminated));
                match done {
                    Err(failure) => (ended, Err(failure)),
                    Ok(_) => {
                        let (last, second) = ended.after_query(Some(queried_again));
                        match second {
                            Ok(Some(code)) => (last, Ok(code)),
                            Ok(None) => (last, Err(MonitorFailure::StillActive)),
                            Err(failure) => (last, Err(failure)),
                        }
                    },
                }
            },
        }
    }

    /// The first step to the exit code once the handler has returned: a code
    /// that is known is the answer, else the system is to be asked.
    pub fn reap_begin(&self) -> (step: ReapStep)
        ensures
            step == (match self.exit_code {
                Some(code) => ReapStep::Done(code),
                None => ReapStep::Query,
            }),
    {
        match self.exit_code {
            Some(code) => ReapStep::Done(code),
            None => ReapStep::Query,
        }
    }

    /// The step after the question: a process that has ended is done, one
    /// that runs is to be terminated.
    pub fn reap_queried(&mut self, queried: Result<u32, i32>) -> (step: ReapStep)
        ensures
            *final(self) == old(self).after_query(Some(queried)).0,
            step == (match old(self).after_query(Some(queried)).1 {
                Ok(Some(code)) => ReapStep::Done(code),
                Ok(None) => ReapStep::Terminate,
                Err(failure) => ReapStep::Failed(failure),
            }),
    {
        match self.exit_code(Some(queried)) {
            Ok(Some(code)) => ReapStep::Done(code),
            Ok(None) => ReapStep::Terminate,
            Err(failure) => ReapStep::Failed(failure),
        }
    }

    /// The step after the termination: the exit code that the process has
    /// ended with, or the failure to end it.  `queried` is what the system
    /// said when it was asked for the exit code after the termination.
    pub fn reap_terminated(&mut self, job_terminated: Result<(), i32>, queried: Result<u32, i32>) -> (step:
        ReapStep)
        ensures
            ({
                let (ended, done) = old(self).after_terminate(Some(job_terminated));
                match done {
                    Err(failure) => *final(self) == ended && step == ReapStep::Failed(failure),
                    Ok(_) => *final(self) == ended.after_query(Some(queried)).0 && step == (
                    match ended.after_query(Some(queried)).1 {
                        Ok(Some(code)) => ReapStep::Done(code),
                        Ok(None) => ReapStep::Failed(MonitorFailure::StillActive),
                        Err(failure) => ReapStep::Failed(failure),
                    }),
                }
            }),
    {
        match self.terminate(Some(job_terminated)) {
            Err(failure) => ReapStep::Failed(failure),
            Ok(_) => match self.exit_code(Some(queried)) {
                Ok(Some(code)) => ReapStep::Done(code),
                Ok(None) => ReapStep::Failed(MonitorFailure::StillActive),
                Err(failure) => ReapStep::Failed(failure),
            },
        }
    }

    /// Gives up the handles that are still held, for the caller to close: the
    /// thread, the process, the job.  Afterwards none is held, so that no
    /// handle is closed twice.
    pub fn release(&mut self) -> (handles: Vec<usize>)
        ensures
            final(self).info == (ProcessInfo { process: 0, thread: 0, job: 0 }),
            final(self).terminated == old(self).terminated,
            final(self).exit_code == old(self).exit_code,
            handles@ == held(old(self).info.thread) + held(old(self).info.process) + held(
                old(self).info.job,
            ),
    {
        let mut handles: Vec<usize> = Vec::new();
        if self.info.thread != 0 {
            handles.push(self.info.thread);
            self.info.thread = 0;
        }
        if self.info.process != 0 {
            handles.push(self.info.process);
            self.info.process = 0;
        }
        if self.info.job != 0 {
            handles.push(self.info.job);
            self.info.job = 0;
        }
        assert(handles@ =~= held(old(self).info.thread) + held(old(self).info.process) + held(
            old(self).info.job,
        ));
        handles
    }
}

/// The exit code as the signed number that a launch reports.
pub fn exit_status(code: u32) -> (status: i32)
    ensures
        status == exit_status_of(code),
{
    if code <= 0x7fff_ffff {
        code as i32
    } else {
        (code as i64 - 0x1_0000_0000) as i32
    }
}

/// Terminating is idempotent: once a termination went through, every further
/// one goes through as well and leaves the record alone, whatever the caller
/// reports.
pub proof fn lemma_terminate_is_idempotent(
    state: ProcessState,
    first: Option<Result<(), i32>>,
    second: Option<Result<(), i32>>,
)
    requires
        state.after_terminate(first).1 is Ok,
    ensures
        ({
            let (terminated, done) = state.after_terminate(first);
            terminated.after_terminate(second) == (terminated, done)
        }),
{
}

/// Once the handler has returned and the exit code was found, the exit
/// status of the process is known for good: the code that the launch reports
/// is the one in the record, and the next question for the exit code gets it
/// without the system being asked.
pub proof fn lemma_exit_status_after_handler(
    state: ProcessState,
    queried: Result<u32, i32>,
    job_terminated: Result<(), i32>,
    queried_again: Result<u32, i32>,
    later: Option<Result<u32, i32>>,
)
    requires
        state.after_reap(queried, job_terminated, queried_again).1 is Ok,
    ensures
        ({
            let (reaped, code) = state.after_reap(queried, job_terminated, queried_again);
            &&& reaped.exit_code == Some(code->Ok_0)
            &&& reaped.after_query(later) == (reaped, Ok::<Option<u32>, MonitorFailure>(Some(code->Ok_0)))
        }),
{
}

/// An exit code that is known stays, and is given again without the system
/// being asked.
pub proof fn lemma_exit_code_is_kept(
    state: ProcessState,
    first: Option<Result<u32, i32>>,
    second: Option<Result<u32, i32>>,
)
    requires
        state.after_query(first).1 matches Ok(Some(_)),
    ensures
        ({
            let (known, code) = state.after_query(first);
            known.after_query(second) == (known, code)
        }),
{
}

} // verus!
