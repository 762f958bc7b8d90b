//! Set up the jail for the child process.
//! This uses the Linux-specific 'landlock' capability, which allows the
//! child process to declare its restrictions.
//! Due to the way it works, a restriction cannot be undone, therefore we
//! can add a full-on set of restrictions to get everything locked down as much
//! as possible.
//!
//! The policy is composed here, with the access rights as Landlock numbers
//! them; bringing it into the kernel is the caller's part.

use crate::runtime::bytes::copy_list;
use crate::runtime::error::SandboxError;
use vstd::prelude::*;

verus! {

/// The oldest Landlock ABI, which every kernel with Landlock has.
pub const ABI_MIN: i32 = 1;

/// The newest Landlock ABI whose rights the policy asks for.
pub const ABI_LATEST: i32 = 6;

/// The status with which the child ends when a descriptor could not be set up
/// or the directory could not be changed.
pub const EXIT_SETUP_FAILED: i32 = 253;

/// The status with which the child ends when the program could not be run.
pub const EXIT_EXEC_FAILED: i32 = 254;

/// The status with which the child ends when the confinement could not be
/// committed.
pub const EXIT_CONFINEMENT_FAILED: i32 = 255;

/// The file system rights that Landlock counts as reading, for an ABI:
/// execute, read a file, read a directory.
pub open spec fn fs_read_bits(abi: int) -> u64 {
    if abi <= 0 {
        0
    } else {
        0xd
    }
}

/// The file system rights that Landlock counts as writing, for an ABI.  The
/// first ABI has ten of them; refer came with the second, truncate with the
/// third, ioctl on devices with the fifth, resolving UNIX sockets with the
/// ninth.
pub open spec fn fs_write_bits(abi: int) -> u64 {
    if abi <= 0 {
        0
    } else if abi == 1 {
        0x1ff2
    } else if abi == 2 {
        0x3ff2
    } else if abi <= 4 {
        0x7ff2
    } else if abi <= 8 {
        0xfff2
    } else {
        0x1_fff2
    }
}

/// All file system rights of an ABI.
pub open spec fn fs_all_bits(abi: int) -> u64 {
    fs_read_bits(abi) | fs_write_bits(abi)
}

/// All network rights of an ABI: binding and connecting TCP, from the fourth
/// ABI on.
pub open spec fn net_all_bits(abi: int) -> u64 {
    if abi <= 3 {
        0
    } else {
        0x3
    }
}

/// `AccessFs::from_all` of the landlock crate, for the ABI that `ABI::from`
/// makes of the number, as the bits of the set: the union of the crate's read
/// and write rights for that ABI.
#[verifier::external_body]
fn access_fs_all(abi: i32) -> (bits: u64)
    ensures
        bits == fs_all_bits(abi as int),
{
    <landlock::AccessFs as landlock::Access>::from_all(landlock::ABI::from(abi)).bits()
}

/// `AccessFs::from_read` of the landlock crate, for the ABI that `ABI::from`
/// makes of the number, as the bits of the set.
#[verifier::external_body]
fn access_fs_read(abi: i32) -> (bits: u64)
    ensures
        bits == fs_read_bits(abi as int),
{
    landlock::AccessFs::from_read(landlock::ABI::from(abi)).bits()
}

/// `AccessNet::from_all` of the landlock crate, for the ABI that `ABI::from`
/// makes of the number, as the bits of the set.
#[verifier::external_body]
fn access_net_all(abi: i32) -> (bits: u64)
    ensures
        bits == net_all_bits(abi as int),
{
    <landlock::AccessNet as landlock::Access>::from_all(landlock::ABI::from(abi)).bits()
}

/// What the child is confined to.  Every right that is handled is denied
/// unless a rule grants it.
pub struct JailPolicy {
    /// The file system rights that the ruleset handles.  The kernel must know
    /// them all, or the jail cannot be built.
    pub handled_fs: u64,
    /// The network rights that the ruleset handles where the kernel knows them.
    pub handled_net: u64,
    /// No connecting to abstract UNIX sockets outside the jail, where the kernel
    /// can do that.
    pub scope_abstract_unix_socket: bool,
    /// No signals to processes outside the jail, where the kernel can do that.
    pub scope_signal: bool,
    /// The rights granted beneath each of the paths.
    pub allowed_fs: u64,
    /// The paths beneath which `allowed_fs` is granted.
    pub allowed_read_paths: Vec<Vec<u8>>,
}

/// How the kernel answered when the child committed the confinement.
#[derive(Debug, Clone, Copy, PartialEq, Eq, Structural)]
pub enum RestrictOutcome {
    /// The call failed.
    Failed,
    /// Landlock is built into the kernel and switched off.
    NotEnabled,
    /// Landlock is not built into the kernel.
    NotImplemented,
    /// The confinement is in force.
    Available,
}

/// A structure that allows for easy execution of the sandbox mode.
/// Intended to be constructed before entering the fork, in order to
/// eliminate memory consumption while forked.
pub struct LandlockJail {
    ruleset: JailPolicy,
}

/// The policy of every launch: no access to any file but reading beneath the
/// paths given, no TCP, no abstract UNIX sockets, no signals.
pub fn new_sandbox(allowed_read_paths: &Vec<Vec<u8>>) -> (policy: JailPolicy)
    ensures
        policy.handled_fs == fs_all_bits(ABI_MIN as int),
        policy.handled_net == net_all_bits(ABI_LATEST as int),
        policy.scope_abstract_unix_socket,
        policy.scope_signal,
        policy.allowed_fs == fs_read_bits(ABI_MIN as int),
        policy.allowed_read_paths.deep_view() == allowed_read_paths.deep_view(),
{
    JailPolicy {
        // Hard requirement: no read or write access to any file (softened by the rules).
        handled_fs: access_fs_all(ABI_MIN),
        // Best effort: no binding or connecting to TCP.
        handled_net: access_net_all(ABI_LATEST),
        // Best effort: no unix sockets, no signals.
        scope_abstract_unix_socket: true,
        scope_signal: true,
        // What is allowed: reading the allowed paths.
        allowed_fs: access_fs_read(ABI_MIN),
        allowed_read_paths: copy_list(allowed_read_paths),
    }
}

impl LandlockJail {
    /// The policy that the jail enforces.
    pub closed spec fn policy(&self) -> JailPolicy {
        self.ruleset
    }

    /// The jail for a policy, once the caller has tried to bring the policy
    /// into the kernel.  `armed` tells how that went: a failure comes with the
    /// kernel's words, and is reported as a failure to set up the jail.
    pub fn new(policy: JailPolicy, armed: Result<(), String>) -> (r: Result<
        LandlockJail,
        SandboxError,
    >)
        ensures
            armed is Ok <==> r is Ok,
            r matches Ok(jail) ==> jail.policy() == policy,
            r matches Err(e) ==> e == SandboxError::JailSetup(armed->Err_0),
    {
        match armed {
            Ok(_) => Ok(LandlockJail { ruleset: policy }),
            Err(message) => Err(SandboxError::JailSetup(message)),
        }
    }

    /// The policy that the jail enforces.
    pub fn ruleset(&self) -> (policy: &JailPolicy)
        ensures
            *policy == self.policy(),
    {
        &self.ruleset
    }

    /// Weighs the kernel's answer to the commit of the confinement, inside
    /// the child.  Only a confinement that is in force lets the child go on;
    /// with any other answer the child has to end with the status returned.
    /// The jail is only looked at: the forked child must not free memory.
    pub fn restrict(&self, outcome: RestrictOutcome) -> (r: Result<(), i32>)
        ensures
            outcome == RestrictOutcome::Available <==> r is Ok,
            r matches Err(status) ==> status == EXIT_CONFINEMENT_FAILED,
    {
        match outcome {
            RestrictOutcome::Failed => Err(EXIT_CONFINEMENT_FAILED),
            // Landlock disabled in the kernel configuration.
            RestrictOutcome::NotEnabled => Err(EXIT_CONFINEMENT_FAILED),
            // Landlock not built into the current kernel.
            RestrictOutcome::NotImplemented => Err(EXIT_CONFINEMENT_FAILED),
            RestrictOutcome::Available => Ok(()),
        }
    }
}

/// The policy of a launch grants nothing but reading: every right that it
/// grants is one that the ruleset handles, none of them is a right to write,
/// and every right to write of the first ABI is handled and stays denied.
pub proof fn lemma_policy_grants_reads_only()
    ensures
        fs_read_bits(ABI_MIN as int) & !fs_all_bits(ABI_MIN as int) == 0,
        fs_read_bits(ABI_MIN as int) & fs_write_bits(ABI_MIN as int) == 0,
        fs_write_bits(ABI_MIN as int) & !fs_all_bits(ABI_MIN as int) == 0,
{
    assert(0xdu64 & !(0xdu64 | 0x1ff2u64) == 0) by (bit_vector);
    assert(0xdu64 & 0x1ff2u64 == 0) by (bit_vector);
    assert(0x1ff2u64 & !(0xdu64 | 0x1ff2u64) == 0) by (bit_vector);
}

} // verus!
