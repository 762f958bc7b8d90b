//! The numbers of Windows that the launch is made with, as the windows-sys
//! crate has them.
//!
//! The library writes each number down where it speaks of it; here each is
//! fetched from the crate, and claimed to be the number written down.

use super::attribute_list::{
    PROC_THREAD_ATTRIBUTE_HANDLE_LIST, PROC_THREAD_ATTRIBUTE_SECURITY_CAPABILITIES,
};
use super::jail::{
    CREATE_SUSPENDED, CREATE_UNICODE_ENVIRONMENT, EXTENDED_STARTUPINFO_PRESENT,
    JOB_OBJECT_LIMIT_ACTIVE_PROCESS, JOB_OBJECT_LIMIT_KILL_ON_JOB_CLOSE, STARTF_USESTDHANDLES,
};
use super::monitor::STILL_ACTIVE;
use super::process_token::DISABLE_MAX_PRIVILEGE;
use vstd::prelude::*;

verus! {

/// `SECURITY_CAPABILITIES` of the windows-sys crate: the value of the
/// attribute that names the AppContainer.  Nothing is said of what it holds.
#[verifier::external_type_specification]
#[verifier::external_body]
pub struct ExSecurityCapabilities(windows_sys::Win32::Security::SECURITY_CAPABILITIES);

/// `CREATE_SUSPENDED` of the windows-sys crate, which is 4.
#[verifier::external_body]
pub(crate) fn create_suspended() -> (flag: u32)
    ensures
        flag == CREATE_SUSPENDED,
{
    windows_sys::Win32::System::Threading::CREATE_SUSPENDED
}

/// `CREATE_UNICODE_ENVIRONMENT` of the windows-sys crate, which is 1024.
#[verifier::external_body]
pub(crate) fn create_unicode_environment() -> (flag: u32)
    ensures
        flag == CREATE_UNICODE_ENVIRONMENT,
{
    windows_sys::Win32::System::Threading::CREATE_UNICODE_ENVIRONMENT
}

/// `EXTENDED_STARTUPINFO_PRESENT` of the windows-sys crate, which is 524288.
#[verifier::external_body]
pub(crate) fn extended_startupinfo_present() -> (flag: u32)
    ensures
        flag == EXTENDED_STARTUPINFO_PRESENT,
{
    windows_sys::Win32::System::Threading::EXTENDED_STARTUPINFO_PRESENT
}

/// `STARTF_USESTDHANDLES` of the windows-sys crate, which is 256.
#[verifier::external_body]
pub(crate) fn startf_usestdhandles() -> (flag: u32)
    ensures
        flag == STARTF_USESTDHANDLES,
{
    windows_sys::Win32::System::Threading::STARTF_USESTDHANDLES
}

/// `JOB_OBJECT_LIMIT_ACTIVE_PROCESS` of the windows-sys crate, which is 8.
#[verifier::external_body]
pub(crate) fn job_object_limit_active_process() -> (flag: u32)
    ensures
        flag == JOB_OBJECT_LIMIT_ACTIVE_PROCESS,
{
    windows_sys::Win32::System::JobObjects::JOB_OBJECT_LIMIT_ACTIVE_PROCESS
}

/// `JOB_OBJECT_LIMIT_KILL_ON_JOB_CLOSE` of the windows-sys crate, which is
/// 8192.
#[verifier::external_body]
pub(crate) fn job_object_limit_kill_on_job_close() -> (flag: u32)
    ensures
        flag == JOB_OBJECT_LIMIT_KILL_ON_JOB_CLOSE,
{
    windows_sys::Win32::System::JobObjects::JOB_OBJECT_LIMIT_KILL_ON_JOB_CLOSE
}

/// `PROC_THREAD_ATTRIBUTE_HANDLE_LIST` of the windows-sys crate, which is
/// 131074.
#[verifier::external_body]
pub(crate) fn proc_thread_attribute_handle_list() -> (attribute: usize)
    ensures
        attribute == PROC_THREAD_ATTRIBUTE_HANDLE_LIST,
{
    windows_sys::Win32::System::Threading::PROC_THREAD_ATTRIBUTE_HANDLE_LIST as usize
}

/// `PROC_THREAD_ATTRIBUTE_SECURITY_CAPABILITIES` of the windows-sys crate,
/// which is 131081.
#[verifier::external_body]
pub(crate) fn proc_thread_attribute_security_capabilities() -> (attribute: usize)
    ensures
        attribute == PROC_THREAD_ATTRIBUTE_SECURITY_CAPABILITIES,
{
    windows_sys::Win32::System::Threading::PROC_THREAD_ATTRIBUTE_SECURITY_CAPABILITIES as usize
}

/// `DISABLE_MAX_PRIVILEGE` of the windows-sys crate, which is 1.
#[verifier::external_body]
pub(crate) fn disable_max_privilege() -> (flag: u32)
    ensures
        flag == DISABLE_MAX_PRIVILEGE,
{
    windows_sys::Win32::Security::DISABLE_MAX_PRIVILEGE
}

/// `STILL_ACTIVE` of the windows-sys crate, which is 259.
#[verifier::external_body]
pub(crate) fn still_active() -> (code: u32)
    ensures
        code == STILL_ACTIVE,
{
    windows_sys::Win32::Foundation::STILL_ACTIVE as u32
}

} // verus!
