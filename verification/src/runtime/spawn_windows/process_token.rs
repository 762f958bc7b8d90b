//! The token that the child runs under.
//!
//! The token is made from the token of the current process: every privilege
//! is taken from it, and the groups that commonly widen access are disabled.

use super::error::{WinError, WindowsSandboxError};
use super::win32::disable_max_privilege;
use vstd::prelude::*;

verus! {

/// The flag that strips every privilege from a restricted token.
pub const DISABLE_MAX_PRIVILEGE: u32 = 0x1;

/// The groups that are disabled in the child's token: well-known ones that
/// commonly expand access on systems where the parent might be elevated or
/// where the user is in privileged local groups.
#[derive(Debug, Clone, Copy, PartialEq, Eq, Structural)]
pub enum WellKnownGroup {
    /// BUILTIN\Administrators
    Administrators,
    /// BUILTIN\Power Users (legacy but still present)
    PowerUsers,
    /// BUILTIN\Backup Operators
    BackupOperators,
    /// BUILTIN\Account Operators
    AccountOperators,
    /// BUILTIN\Print Operators
    PrintOperators,
    /// BUILTIN\Network Configuration Operators
    NetworkConfigurationOperators,
    /// BUILTIN\Remote Desktop Users (can matter in some environments)
    RemoteDesktopUsers,
}

pub struct ProcessToken {
    token: Option<usize>,
}

/// The flags that the restricted token is asked for with: every privilege
/// is to be taken from it.
pub fn restriction_flags() -> (flags: u32)
    ensures
        flags == DISABLE_MAX_PRIVILEGE,
{
    disable_max_privilege()
}

/// The groups to disable, in the order in which they are handed to the
/// system.
pub open spec fn powerful_groups() -> Seq<WellKnownGroup> {
    seq![
        WellKnownGroup::Administrators,
        WellKnownGroup::PowerUsers,
        WellKnownGroup::BackupOperators,
        WellKnownGroup::AccountOperators,
        WellKnownGroup::PrintOperators,
        WellKnownGroup::NetworkConfigurationOperators,
        WellKnownGroup::RemoteDesktopUsers,
    ]
}

/// Builds a list of "powerful/common" groups to disable in a restricted token.
///
/// Disabling "admin-ish" groups is usually safe; disabling broad groups like
/// "Users" or "Authenticated Users" tends to break normal program execution
/// and DLL loading, so these are not on the list.
pub fn build_powerful_sids_to_disable() -> (groups: Vec<WellKnownGroup>)
    ensures
        groups@ == powerful_groups(),
{
    let mut groups: Vec<WellKnownGroup> = Vec::with_capacity(7);
    groups.push(WellKnownGroup::Administrators);
    groups.push(WellKnownGroup::PowerUsers);
    groups.push(WellKnownGroup::BackupOperators);
    groups.push(WellKnownGroup::AccountOperators);
    groups.push(WellKnownGroup::PrintOperators);
    groups.push(WellKnownGroup::NetworkConfigurationOperators);
    groups.push(WellKnownGroup::RemoteDesktopUsers);
    assert(groups@ =~= powerful_groups());
    groups
}

impl ProcessToken {
    /// The handle of the token, as long as it is held.
    pub closed spec fn token_spec(&self) -> Option<usize> {
        self.token
    }

    /// The token of the current process, from the handle that the system gave
    /// for it.
    pub fn current_process(handle: usize) -> (token: ProcessToken)
        ensures
            token.token_spec() == Some(handle),
    {
        ProcessToken { token: Some(handle) }
    }

    /// Create a restricted token from the process token.
    ///
    /// A token that was closed cannot be the base of another.  Else `created`
    /// is what the system answered when it was asked for a token without
    /// privileges and with the powerful groups disabled.
    pub fn create_restricted_token(&self, created: Option<Result<usize, WinError>>) -> (r: Result<
        ProcessToken,
        WindowsSandboxError,
    >)
        ensures
            (self.token_spec() is Some && created matches Some(Ok(_))) <==> r is Ok,
            r matches Ok(t) ==> t.token_spec() == Some(created->Some_0->Ok_0),
            r matches Err(e) ==> if self.token_spec() is None {
                e matches WindowsSandboxError::Sandbox(crate::runtime::error::SandboxError::JailSetup(m))
                    && m@ == "already closed handle"@
            } else if created is None {
                e matches WindowsSandboxError::Sandbox(crate::runtime::error::SandboxError::JailSetup(m))
                    && m@ == "restricted token was not asked for"@
            } else {
                e == WindowsSandboxError::Setup(created->Some_0->Err_0)
            },
    {
        match self.token {
            None => Err(WindowsSandboxError::setup_message("already closed handle")),
            Some(_) => match created {
                None => Err(WindowsSandboxError::setup_message("restricted token was not asked for")),
                Some(Ok(h)) => Ok(ProcessToken { token: Some(h) }),
                Some(Err(e)) => Err(WindowsSandboxError::setup(e)),
            },
        }
    }

    pub fn handle(&self) -> (h: Option<usize>)
        ensures
            h == self.token_spec(),
    {
        self.token
    }

    /// Gives up the handle, for the caller to close.  Afterwards none is
    /// held, so that it is not closed twice.
    pub fn close(&mut self) -> (h: Option<usize>)
        ensures
            h == old(self).token_spec(),
            final(self).token_spec() is None,
    {
        self.token.take()
    }
}

} // verus!
