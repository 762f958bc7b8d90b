//! # grackle-zero
//!
//! The verified core of a launcher that runs child programs with zero OS
//! permissions: every decision the launcher takes (which descriptors to wire,
//! which files the child may read, how a command line is quoted, how the child
//! is supervised) is a function with a proved contract.  Performing the system
//! calls is left to the caller of this library.

pub mod comm;
pub mod runtime;

pub use runtime::spawn::{Child, CommHandler, Fd, FdMode, FdSet, LaunchEnv};
