//! Spawns the process with proper security restrictions.
//! Specific to Linux.  Uses Landlock for jail restrictions.

pub mod call_names;
pub mod confine;
pub mod dependencies;
pub mod fd;
pub mod jail;
pub mod launch;
