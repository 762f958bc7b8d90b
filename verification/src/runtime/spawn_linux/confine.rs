//! The way of the forked child into its confinement.
//!
//! Between the fork and the program the child installs its descriptors,
//! changes its directory, commits the confinement, closes every descriptor it
//! is not meant to keep, and runs the program.  Each step is taken once and in
//! this order, and a step that fails ends the child with a fixed status: by
//! then there is no channel left on which the child could say more.

use super::jail::{EXIT_CONFINEMENT_FAILED, EXIT_EXEC_FAILED, EXIT_SETUP_FAILED};
use std::collections::HashSet;
use vstd::prelude::*;

verus! {

broadcast use vstd::std_specs::hash::group_hash_axioms;

/// How far the child has come.
#[derive(Debug, Clone, Copy, PartialEq, Eq, Structural)]
pub enum ChildState {
    /// Nothing is done yet.
    Unconfined,
    /// The ends of the pipes answer under the numbers that the program expects.
    DescriptorsInstalled,
    /// The child is in the directory that the program is to start in.
    DirectoryChanged,
    /// The confinement is in force, for good.
    ConfinementCommitted,
    /// No descriptor is open but those that the program is meant to have.
    DescriptorsClosed,
    /// The program runs.
    Execd,
    /// The child has ended with this status before the program ran.
    Exited(i32),
}

/// What the child does next.
#[derive(Debug, Clone, Copy, PartialEq, Eq, Structural)]
pub enum ChildAction {
    InstallDescriptors,
    ChangeDirectory,
    CommitConfinement,
    CloseDescriptors,
    Exec,
    /// End with this status.
    Exit(i32),
    /// Nothing: the program runs.
    Nothing,
}

/// What the child does in a state.
pub open spec fn action_in(state: ChildState) -> ChildAction {
    match state {
        ChildState::Unconfined => ChildAction::InstallDescriptors,
        ChildState::DescriptorsInstalled => ChildAction::ChangeDirectory,
        ChildState::DirectoryChanged => ChildAction::CommitConfinement,
        ChildState::ConfinementCommitted => ChildAction::CloseDescriptors,
        ChildState::DescriptorsClosed => ChildAction::Exec,
        ChildState::Execd => ChildAction::Nothing,
        ChildState::Exited(status) => ChildAction::Exit(status),
    }
}

/// The state that follows when the action of a state went well or failed.
/// Closing descriptors cannot fail: a descriptor that cannot be closed was not
/// open.
pub open spec fn state_after(state: ChildState, ok: bool) -> ChildState {
    match state {
        ChildState::Unconfined => if ok {
            ChildState::DescriptorsInstalled
        } else {
            ChildState::Exited(EXIT_SETUP_FAILED)
        },
        ChildState::DescriptorsInstalled => if ok {
            ChildState::DirectoryChanged
        } else {
            ChildState::Exited(EXIT_SETUP_FAILED)
        },
        ChildState::DirectoryChanged => if ok {
            ChildState::ConfinementCommitted
        } else {
            ChildState::Exited(EXIT_CONFINEMENT_FAILED)
        },
        ChildState::ConfinementCommitted => ChildState::DescriptorsClosed,
        ChildState::DescriptorsClosed => if ok {
            ChildState::Execd
        } else {
            ChildState::Exited(EXIT_EXEC_FAILED)
        },
        ChildState::Execd => ChildState::Execd,
        ChildState::Exited(status) => ChildState::Exited(status),
    }
}

/// The state after a run of actions, of which `outcomes` tells for each
/// whether it went well.
pub open spec fn state_after_all(state: ChildState, outcomes: Seq<bool>) -> ChildState
    decreases outcomes.len(),
{
    if outcomes.len() == 0 {
        state
    } else {
        state_after(state_after_all(state, outcomes.drop_last()), outcomes.last())
    }
}

/// How far a state is along the way.
pub open spec fn progress(state: ChildState) -> nat {
    match state {
        ChildState::Unconfined => 0,
        ChildState::DescriptorsInstalled => 1,
        ChildState::DirectoryChanged => 2,
        ChildState::ConfinementCommitted => 3,
        ChildState::DescriptorsClosed => 4,
        ChildState::Execd => 5,
        ChildState::Exited(_) => 5,
    }
}

/// The action that the child takes in a state.
pub fn child_action(state: ChildState) -> (action: ChildAction)
    ensures
        action == action_in(state),
{
    match state {
        ChildState::Unconfined => ChildAction::InstallDescriptors,
        ChildState::DescriptorsInstalled => ChildAction::ChangeDirectory,
        ChildState::DirectoryChanged => ChildAction::CommitConfinement,
        ChildState::ConfinementCommitted => ChildAction::CloseDescriptors,
        ChildState::DescriptorsClosed => ChildAction::Exec,
        ChildState::Execd => ChildAction::Nothing,
        ChildState::Exited(status) => ChildAction::Exit(status),
    }
}

/// The state of the child once the action of its state went well or failed.
/// The function allocates nothing, so the child may call it.
pub fn child_step(state: ChildState, ok: bool) -> (next: ChildState)
    ensures
        next == state_after(state, ok),
{
    match state {
        ChildState::Unconfined => if ok {
            ChildState::DescriptorsInstalled
        } else {
            ChildState::Exited(EXIT_SETUP_FAILED)
        },
        ChildState::DescriptorsInstalled => if ok {
            ChildState::DirectoryChanged
        } else {
            ChildState::Exited(EXIT_SETUP_FAILED)
        },
        ChildState::DirectoryChanged => if ok {
            ChildState::ConfinementCommitted
        } else {
            ChildState::Exited(EXIT_CONFINEMENT_FAILED)
        },
        ChildState::ConfinementCommitted => ChildState::DescriptorsClosed,
        ChildState::DescriptorsClosed => if ok {
            ChildState::Execd
        } else {
            ChildState::Exited(EXIT_EXEC_FAILED)
        },
        ChildState::Execd => ChildState::Execd,
        ChildState::Exited(status) => ChildState::Exited(status),
    }
}

/// The steps go one way: no step leads back, the program and the end of the
/// child are final, and a child that has not come to its end yet moves on
/// with every step.
pub proof fn lemma_steps_go_one_way(state: ChildState, ok: bool)
    ensures
        progress(state_after(state, ok)) >= progress(state),
        progress(state) < 5 ==> progress(state_after(state, ok)) > progress(state),
        state is Execd || state is Exited ==> state_after(state, ok) == state,
{
}

/// The program runs only in a child that is confined: whatever the steps
/// gave, a child that has reached the program has installed its descriptors,
/// changed its directory and committed the confinement, each with success and
/// in this order, has closed its descriptors after that, and has gone through
/// the four states in between.
pub proof fn lemma_exec_only_when_confined(outcomes: Seq<bool>)
    requires
        state_after_all(ChildState::Unconfined, outcomes) is Execd,
    ensures
        outcomes.len() >= 5,
        outcomes[0] && outcomes[1] && outcomes[2] && outcomes[4],
        state_after_all(ChildState::Unconfined, outcomes.take(1)) is DescriptorsInstalled,
        state_after_all(ChildState::Unconfined, outcomes.take(2)) is DirectoryChanged,
        state_after_all(ChildState::Unconfined, outcomes.take(3)) is ConfinementCommitted,
        state_after_all(ChildState::Unconfined, outcomes.take(4)) is DescriptorsClosed,
{
    let start = ChildState::Unconfined;
    lemma_progress_is_bounded(outcomes);
    lemma_progress_is_bounded(outcomes.take(5));
    lemma_progress_is_bounded(outcomes.take(4));
    lemma_progress_is_bounded(outcomes.take(3));
    lemma_progress_is_bounded(outcomes.take(2));
    lemma_progress_is_bounded(outcomes.take(1));
    lemma_first_steps(outcomes, 5);
    lemma_first_steps(outcomes, 4);
    lemma_first_steps(outcomes, 3);
    lemma_first_steps(outcomes, 2);
    lemma_first_steps(outcomes, 1);
    lemma_first_steps(outcomes, 0);
    assert(progress(state_after_all(start, outcomes.take(5))) == 5);
    lemma_final_states_stay(outcomes, 5);
}

/// A run of steps brings a child that has not ended no further than the steps
/// are many, and a child that is still on its way exactly that far.
proof fn lemma_progress_is_bounded(outcomes: Seq<bool>)
    ensures
        !(state_after_all(ChildState::Unconfined, outcomes) is Exited) ==> progress(
            state_after_all(ChildState::Unconfined, outcomes),
        ) <= outcomes.len(),
        progress(state_after_all(ChildState::Unconfined, outcomes)) < 5 ==> progress(
            state_after_all(ChildState::Unconfined, outcomes),
        ) == outcomes.len(),
    decreases outcomes.len(),
{
    if outcomes.len() > 0 {
        lemma_progress_is_bounded(outcomes.drop_last());
    }
}

/// The state after the first `count` steps, from the state after one step
/// less.
proof fn lemma_first_steps(outcomes: Seq<bool>, count: int)
    requires
        0 <= count <= outcomes.len(),
    ensures
        count == 0 ==> state_after_all(ChildState::Unconfined, outcomes.take(count))
            == ChildState::Unconfined,
        count > 0 ==> state_after_all(ChildState::Unconfined, outcomes.take(count)) == state_after(
            state_after_all(ChildState::Unconfined, outcomes.take(count - 1)),
            outcomes[count - 1],
        ),
{
    if count > 0 {
        assert(outcomes.take(count).drop_last() =~= outcomes.take(count - 1));
    }
}

/// A child that has ended, or runs the program, stays so through every
/// further step.
proof fn lemma_final_states_stay(outcomes: Seq<bool>, count: int)
    requires
        0 <= count <= outcomes.len(),
        progress(state_after_all(ChildState::Unconfined, outcomes.take(count))) == 5,
    ensures
        state_after_all(ChildState::Unconfined, outcomes) == state_after_all(
            ChildState::Unconfined,
            outcomes.take(count),
        ),
    decreases outcomes.len() - count,
{
    if count < outcomes.len() {
        lemma_first_steps(outcomes, count + 1);
        lemma_final_states_stay(outcomes, count + 1);
    } else {
        assert(outcomes.take(count) =~= outcomes);
    }
}

/// A child that ends before the program runs ends with one of the three
/// fixed statuses, and with the status for the confinement only where it was
/// the commit that failed.
pub proof fn lemma_child_exit_statuses(state: ChildState, ok: bool)
    requires
        !(state is Exited),
        state_after(state, ok) is Exited,
    ensures
        !ok,
        state_after(state, ok)->Exited_0 == (match state {
            ChildState::DirectoryChanged => EXIT_CONFINEMENT_FAILED,
            ChildState::DescriptorsClosed => EXIT_EXEC_FAILED,
            _ => EXIT_SETUP_FAILED,
        }),
{
}

/// The greatest number of descriptors to walk when none is reported.
pub const DEFAULT_OPEN_MAX: i32 = 1024;

/// The number below which every descriptor lies: the limit that the system
/// reports, or 1024 where it reports none.
pub fn descriptor_limit(reported: Option<i32>) -> (max_fd: i32)
    ensures
        max_fd == (match reported {
            Some(n) => n,
            None => DEFAULT_OPEN_MAX,
        }),
{
    match reported {
        Some(n) => n,
        None => DEFAULT_OPEN_MAX,
    }
}

/// Tells whether the child has to close a descriptor: every one but those
/// that it keeps.  The function allocates nothing, so the child may call it.
pub fn must_close(except: &HashSet<i32>, fd: i32) -> (r: bool)
    ensures
        r == !except@.contains(fd),
{
    !except.contains(&fd)
}

/// The descriptors below `max_fd` that are not kept, in rising order.
pub open spec fn sweep(except: Set<i32>, max_fd: int) -> Seq<i32>
    decreases max_fd,
{
    if max_fd <= 0 {
        Seq::empty()
    } else if except.contains((max_fd - 1) as i32) {
        sweep(except, max_fd - 1)
    } else {
        sweep(except, max_fd - 1).push((max_fd - 1) as i32)
    }
}

/// The descriptors that the child closes before it runs the program: all
/// open file descriptors except those listed, walked from 0 up to the limit.
/// Whether a descriptor is open plays no part; the closing ignores what is
/// not.
pub fn close_open_fds(except: &HashSet<i32>, max_fd: i32) -> (closing: Vec<i32>)
    ensures
        closing@ == sweep(except@, max_fd as int),
{
    let mut closing: Vec<i32> = Vec::new();
    let mut fd: i32 = 0;
    while fd < max_fd
        invariant
            0 <= fd,
            max_fd > 0 ==> fd <= max_fd,
            max_fd <= 0 ==> fd == 0,
            closing@ == sweep(except@, fd as int),
        decreases max_fd - fd,
    {
        if must_close(except, fd) {
            closing.push(fd);
        }
        fd += 1;
    }
    closing
}

/// The sweep takes in exactly the descriptors below the limit that are not
/// kept.
pub proof fn lemma_sweep_closes_the_rest(except: Set<i32>, max_fd: int, fd: i32)
    requires
        max_fd <= i32::MAX,
    ensures
        sweep(except, max_fd).contains(fd) <==> (0 <= fd < max_fd && !except.contains(fd)),
    decreases max_fd,
{
    if max_fd > 0 {
        lemma_sweep_closes_the_rest(except, max_fd - 1, fd);
        let before = sweep(except, max_fd - 1);
        let last = (max_fd - 1) as i32;
        if !except.contains(last) {
            if before.push(last).contains(fd) {
                let k = choose|k: int| 0 <= k < before.push(last).len() && before.push(last)[k] == fd;
                if k < before.len() {
                    assert(before[k] == fd);
                }
            }
            if before.contains(fd) {
                let k = choose|k: int| 0 <= k < before.len() && before[k] == fd;
                assert(before.push(last)[k] == fd);
            }
            if fd == last {
                assert(before.push(last)[before.len() as int] == fd);
            }
        }
    }
}

} // verus!
