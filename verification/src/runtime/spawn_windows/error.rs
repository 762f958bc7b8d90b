//! Windows based errors.

use crate::runtime::error::SandboxError;
use vstd::prelude::*;
use vstd::std_specs::convert::FromSpecImpl;
use vstd::string::StringExecFns;

verus! {

/// A failure that a call into Windows reported: its result code and the
/// system's words for it.
#[derive(Debug)]
pub struct WinError {
    pub code: i32,
    pub message: String,
}

/// Allows handling Windows errors and library errors in the same code.
#[derive(Debug)]
pub enum WindowsSandboxError {
    Sandbox(SandboxError),
    Setup(WinError),
    Run(WinError),
}

impl WindowsSandboxError {
    /// A failure to set the jail up, in the library's own words.
    pub fn setup_message(reason: &str) -> (e: WindowsSandboxError)
        ensures
            e matches WindowsSandboxError::Sandbox(SandboxError::JailSetup(m)) && m@ == reason@,
    {
        WindowsSandboxError::Sandbox(SandboxError::JailSetup(String::from_str(reason)))
    }

    /// A failure of Windows while the process was set up.
    pub fn setup(e: WinError) -> (r: WindowsSandboxError)
        ensures
            r == WindowsSandboxError::Setup(e),
    {
        WindowsSandboxError::Setup(e)
    }

    /// A failure of Windows while the process ran.
    pub fn run(e: WinError) -> (r: WindowsSandboxError)
        ensures
            r == WindowsSandboxError::Run(e),
    {
        WindowsSandboxError::Run(e)
    }

    /// The error as the one kind that a launch surfaces: a failure of the
    /// set-up is a jail that could not be armed, a failure of the run an
    /// anomaly in the life of the process.
    pub fn into_sandbox(self) -> (r: SandboxError)
        ensures
            match self {
                WindowsSandboxError::Sandbox(s) => r == s,
                WindowsSandboxError::Setup(e) => r matches SandboxError::JailSetup(m) && m@
                    == "problem setting up the process: "@ + e.message@,
                WindowsSandboxError::Run(e) => r matches SandboxError::ProcessError(m) && m@
                    == "problem handling process: "@ + e.message@,
            },
    {
        match self {
            WindowsSandboxError::Sandbox(s) => s,
            WindowsSandboxError::Setup(e) => {
                let mut m = String::from_str("problem setting up the process: ");
                m.append(e.message.as_str());
                SandboxError::JailSetup(m)
            },
            WindowsSandboxError::Run(e) => {
                let mut m = String::from_str("problem handling process: ");
                m.append(e.message.as_str());
                SandboxError::ProcessError(m)
            },
        }
    }
}

impl From<WinError> for WindowsSandboxError {
    fn from(value: WinError) -> (r: WindowsSandboxError) {
        WindowsSandboxError::Setup(value)
    }
}

impl FromSpecImpl<WinError> for WindowsSandboxError {
    open spec fn obeys_from_spec() -> bool {
        true
    }

    open spec fn from_spec(value: WinError) -> WindowsSandboxError {
        WindowsSandboxError::Setup(value)
    }
}

} // verus!
