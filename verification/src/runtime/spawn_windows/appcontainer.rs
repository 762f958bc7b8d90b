//! The AppContainer profile that a launch runs in.
//!
//! Every launch gets a profile of its own.  The profile is asked for under a
//! name; where that name is taken, the name is tried with a number behind it,
//! counting up from 0, until a profile can be made.

use super::error::{WinError, WindowsSandboxError};
use super::fd::{decimal_units, push_number};
use vstd::prelude::*;

verus! {

/// How the system answered to the making of a profile.
#[derive(Debug)]
pub enum CreateOutcome {
    /// The profile was made; this is its security identifier.
    Created(usize),
    /// There is a profile of that name.
    AlreadyExists,
    /// The profile could not be made.
    Failed(WinError),
}

/// What follows from an attempt to make a profile.
#[derive(Debug)]
pub enum ProfileStep {
    /// The profile is there.
    Ready(AppContainer),
    /// Try again, with the attempt of this number.
    Retry(u32),
    /// Give up.
    Failed(WindowsSandboxError),
}

#[derive(Debug)]
pub struct AppContainer {
    sid: Option<usize>,
}

/// The name of the profile for an attempt: the plain name for the first, and
/// the name with the number of the attempt before behind it for the others.
pub open spec fn profile_name_units(name: Seq<u16>, attempt: nat) -> Seq<u16> {
    if attempt == 0 {
        name
    } else {
        name + decimal_units((attempt - 1) as nat)
    }
}

impl AppContainer {
    /// The security identifier of the profile, as long as it is held.
    pub closed spec fn sid_spec(&self) -> Option<usize> {
        self.sid
    }

    /// The name under which the profile is asked for at an attempt.
    pub fn profile_name(name: &Vec<u16>, attempt: u32) -> (r: Vec<u16>)
        ensures
            r@ == profile_name_units(name@, attempt as nat),
    {
        let mut r: Vec<u16> = Vec::with_capacity(name.len());
        let mut i: usize = 0;
        while i < name.len()
            invariant
                i <= name@.len(),
                r@ == name@.take(i as int),
            decreases name@.len() - i,
        {
            r.push(name[i]);
            i += 1;
            assert(r@ =~= name@.take(i as int));
        }
        assert(name@.take(i as int) =~= name@);
        if attempt > 0 {
            push_number(&mut r, (attempt - 1) as usize, 10);
        }
        r
    }

    /// Weighs the system's answer to the attempt with the number given.  A
    /// name that is taken leads to the next attempt, as long as the attempts
    /// can be counted; any other failure ends the launch.
    pub fn new(attempt: u32, outcome: CreateOutcome) -> (step: ProfileStep)
        ensures
            match outcome {
                CreateOutcome::Created(sid) => step matches ProfileStep::Ready(c) && c.sid_spec()
                    == Some(sid),
                CreateOutcome::AlreadyExists => if attempt < u32::MAX {
                    step matches ProfileStep::Retry(next) && next == attempt + 1
                } else {
                    step matches ProfileStep::Failed(
                        WindowsSandboxError::Sandbox(crate::runtime::error::SandboxError::JailSetup(m)),
                    ) && m@ == "no AppContainer name is free"@
                },
                CreateOutcome::Failed(e) => step matches ProfileStep::Failed(
                    WindowsSandboxError::Setup(f),
                ) && f == e,
            },
    {
        match outcome {
            CreateOutcome::Created(sid) => ProfileStep::Ready(AppContainer { sid: Some(sid) }),
            CreateOutcome::AlreadyExists => {
                // Another profile is made rather than the one that exists used:
                // that one could be dropped by whoever made it.
                if attempt < u32::MAX {
                    ProfileStep::Retry(attempt + 1)
                } else {
                    ProfileStep::Failed(
                        WindowsSandboxError::setup_message("no AppContainer name is free"),
                    )
                }
            },
            CreateOutcome::Failed(e) => ProfileStep::Failed(WindowsSandboxError::setup(e)),
        }
    }

    pub fn sid(&self) -> (sid: Option<usize>)
        ensures
            sid == self.sid_spec(),
    {
        self.sid
    }

    /// The security identifier for the question after the profile's folder.
    /// A profile that was given up has none.
    pub fn sid_for_folder(&self) -> (r: Result<usize, WindowsSandboxError>)
        ensures
            self.sid_spec() is Some <==> r is Ok,
            r matches Ok(sid) ==> Some(sid) == self.sid_spec(),
    {
        match self.sid {
            None => Err(WindowsSandboxError::setup_message("AppContainer already dropped")),
            Some(sid) => Ok(sid),
        }
    }

    /// Gives up the security identifier, for the caller to free.  Afterwards
    /// none is held, so that it is not freed twice.
    pub fn release(&mut self) -> (sid: Option<usize>)
        ensures
            sid == old(self).sid_spec(),
            final(self).sid_spec() is None,
    {
        self.sid.take()
    }
}

} // verus!
