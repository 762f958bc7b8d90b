//! Common error type.

use vstd::prelude::*;
use vstd::std_specs::convert::FromSpecImpl;
use vstd::string::StringExecFns;

verus! {

/// The class of an I/O failure, as the operating system or a codec reports it.
#[derive(Debug, Clone, Copy, PartialEq, Eq, Structural)]
pub enum IoErrorKind {
    NotFound,
    InvalidInput,
    InvalidData,
    InvalidFilename,
    UnexpectedEof,
    Unsupported,
    NotSeekable,
    BrokenPipe,
    Interrupted,
    Other,
    /// A failure that the system reported by its number.
    Os(i32),
}

/// An I/O failure: its class and a message for people.
#[derive(Debug, Clone)]
pub struct IoError {
    pub kind: IoErrorKind,
    pub message: String,
}

impl IoError {
    /// An I/O failure of the given class with a fixed message.
    pub fn new(kind: IoErrorKind, message: &str) -> (e: IoError)
        ensures
            e.kind == kind,
            e.message@ == message@,
    {
        IoError { kind, message: String::from_str(message) }
    }
}

/// The single error kind that a launch surfaces.
#[derive(Debug)]
pub enum SandboxError {
    /// Transient or classic OS I/O failure.
    Io(IoError),
    /// Anomaly in the life of the child after it was spawned.
    ProcessError(String),
    /// The confinement could not be armed.
    JailSetup(String),
    /// The platform lacks a primitive that the confinement needs.
    JailNotSupported(String),
}

impl SandboxError {
    /// The class under which a sandbox error is handed on as an I/O failure.
    pub open spec fn io_kind(self) -> IoErrorKind {
        match self {
            SandboxError::Io(e) => e.kind,
            SandboxError::ProcessError(_) => IoErrorKind::Unsupported,
            SandboxError::JailSetup(_) => IoErrorKind::InvalidInput,
            SandboxError::JailNotSupported(_) => IoErrorKind::NotSeekable,
        }
    }

    /// The message that a sandbox error carries.
    pub open spec fn message(self) -> Seq<char> {
        match self {
            SandboxError::Io(e) => e.message@,
            SandboxError::ProcessError(m) => m@,
            SandboxError::JailSetup(m) => m@,
            SandboxError::JailNotSupported(m) => m@,
        }
    }

    /// The text shown for any sandbox error.
    pub fn to_string(&self) -> (s: String)
        ensures
            s@ == "sandbox error"@,
    {
        String::from_str("sandbox error")
    }

    /// The error for an executable that the search path does not hold.
    pub fn not_found(message: &str) -> (e: SandboxError)
        ensures
            e matches SandboxError::Io(io) && io.kind == IoErrorKind::NotFound && io.message@
                == message@,
    {
        SandboxError::Io(IoError::new(IoErrorKind::NotFound, message))
    }

    /// The error for a string that cannot be handed to the system because it
    /// holds a NUL.
    pub fn interior_nul() -> (e: SandboxError)
        ensures
            e matches SandboxError::Io(io) && io.kind == IoErrorKind::InvalidFilename && io.message@
                == "nul byte found in provided data"@,
    {
        SandboxError::Io(IoError::new(IoErrorKind::InvalidFilename, "nul byte found in provided data"))
    }
}

impl From<IoError> for SandboxError {
    fn from(e: IoError) -> (r: SandboxError) {
        SandboxError::Io(e)
    }
}

impl FromSpecImpl<IoError> for SandboxError {
    open spec fn obeys_from_spec() -> bool {
        true
    }

    open spec fn from_spec(e: IoError) -> SandboxError {
        SandboxError::Io(e)
    }
}

impl From<SandboxError> for IoError {
    fn from(e: SandboxError) -> (r: IoError) {
        match e {
            SandboxError::Io(e) => e,
            SandboxError::ProcessError(m) => IoError { kind: IoErrorKind::Unsupported, message: m },
            SandboxError::JailSetup(m) => IoError { kind: IoErrorKind::InvalidInput, message: m },
            SandboxError::JailNotSupported(m) => IoError {
                kind: IoErrorKind::NotSeekable,
                message: m,
            },
        }
    }
}

impl FromSpecImpl<SandboxError> for IoError {
    open spec fn obeys_from_spec() -> bool {
        true
    }

    open spec fn from_spec(e: SandboxError) -> IoError {
        match e {
            SandboxError::Io(e) => e,
            SandboxError::ProcessError(m) => IoError { kind: IoErrorKind::Unsupported, message: m },
            SandboxError::JailSetup(m) => IoError { kind: IoErrorKind::InvalidInput, message: m },
            SandboxError::JailNotSupported(m) => IoError {
                kind: IoErrorKind::NotSeekable,
                message: m,
            },
        }
    }
}

} // verus!
