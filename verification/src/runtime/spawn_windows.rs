//! Sandbox for Windows.
//!
//! What has to be decided before and after a process is created inside an
//! AppContainer with a restricted token and a job object: the command line and
//! the environment block, which handles cross the process boundary, and how the
//! process is tracked afterwards.  Strings are sequences of UTF-16 code units,
//! handles the numbers that the system knows them by.

pub mod appcontainer;
pub mod argv;
pub mod attribute_list;
pub mod conv;
pub mod environ;
pub mod error;
pub mod fd;
pub mod jail;
pub mod launch;
pub mod launch_quote;
pub mod monitor;
pub mod process_token;
pub mod win32;
