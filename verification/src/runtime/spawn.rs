//! General model for spawning child processes and managing their state.

use crate::runtime::bytes::bytes_eq;
use crate::runtime::error::{IoError, SandboxError};
use std::collections::HashMap;
use vstd::prelude::*;
use vstd::std_specs::iter::IteratorSpec;
use vstd::string::StringExecFns;

verus! {

broadcast use vstd::std_specs::hash::group_hash_axioms;

/// The FD mode description, indicating the direction of data.
#[derive(Debug, Clone, Copy, PartialEq, Eq, Structural)]
pub enum FdMode {
    /// The FD is closed in the child and not used for communication.
    Null,
    /// The data flows from the parent to the child.
    ToChild,
    /// The data flows from the child to the parent.
    FromChild,
    /// The FD is kept open in the child without redirection.
    KeepInChild,
}

/// A single file descriptor, which has an index and a direction.
#[derive(Debug, Clone, Copy, PartialEq, Eq, Structural)]
pub struct Fd {
    pub fd: u32,
    pub mode: FdMode,
}

/// Defines the required file descriptors used in the construction of the child process.
///
/// By default, STDIN is at index 0, STDOUT is at index 1, and STDERR is at index 2.
#[derive(Debug, Clone)]
pub struct FdSet {
    fds: Vec<Fd>,
}

impl View for FdSet {
    type V = Seq<Fd>;

    closed spec fn view(&self) -> Seq<Fd> {
        self.fds@
    }
}

/// True where no logical descriptor is named twice.
pub open spec fn unique_fds(fds: Seq<Fd>) -> bool {
    forall|i: int, j: int| 0 <= i < j < fds.len() ==> fds[i].fd != fds[j].fd
}

impl FdSet {
    /// Create a new FdSet using mode definitions, one per slice index.
    /// That is, index 0 is assigned FD 0, index 1 to FD 1, and so on.  Past
    /// the greatest descriptor the numbers start again at 0.
    pub fn basic(modes: &[FdMode]) -> (set: FdSet)
        ensures
            set@.len() == modes@.len(),
            forall|i: int|
                0 <= i < modes@.len() ==> set@[i] == (Fd {
                    fd: (i % 0x1_0000_0000) as u32,
                    mode: modes@[i],
                }),
            modes@.len() <= 0x1_0000_0000 ==> unique_fds(set@),
    {
        let mut fds: Vec<Fd> = Vec::with_capacity(modes.len());
        let mut i: usize = 0;
        while i < modes.len()
            invariant
                i <= modes@.len(),
                fds@.len() == i,
                forall|k: int|
                    0 <= k < i ==> fds@[k] == (Fd {
                        fd: (k % 0x1_0000_0000) as u32,
                        mode: modes@[k],
                    }),
            decreases modes@.len() - i,
        {
            fds.push(Fd { fd: ((i as u64) % 0x1_0000_0000) as u32, mode: modes[i] });
            i += 1;
        }
        FdSet { fds }
    }

    /// Construct the file descriptors from the list of values.
    pub fn from_vec(fds: Vec<Fd>) -> (set: FdSet)
        ensures
            set@ == fds@,
    {
        FdSet { fds }
    }

    /// Construct the file descriptors from an index map.  The entries come out
    /// in the order in which the map is walked, which no caller can rely on.
    pub fn from_map(map: HashMap<u32, FdMode>) -> (set: FdSet)
        ensures
            set@.len() == map@.len(),
            unique_fds(set@),
            forall|i: int|
                0 <= i < set@.len() ==> map@.contains_key(#[trigger] set@[i].fd) && map@[set@[i].fd]
                    == set@[i].mode,
            forall|k: u32| #[trigger]
                map@.contains_key(k) ==> set@.contains(Fd { fd: k, mode: map@[k] }),
    {
        let mut fds: Vec<Fd> = Vec::with_capacity(map.len());
        for e in it: map.iter()
            invariant
                it.seq() == map.iter().remaining(),
                it.seq().no_duplicates(),
                fds@.len() == it.index(),
                forall|i: int|
                    0 <= i < fds@.len() ==> fds@[i] == (Fd {
                        fd: *it.seq()[i].0,
                        mode: *it.seq()[i].1,
                    }),
        {
            fds.push(Fd { fd: *e.0, mode: *e.1 });
        }
        proof {
            let walked = map.iter().remaining();
            assert forall|i: int, j: int| 0 <= i < j < fds@.len() implies fds@[i].fd
                != fds@[j].fd by {
                if fds@[i].fd == fds@[j].fd {
                    assert(map@.contains_key(*walked[i].0) && map@[*walked[i].0] == *walked[i].1);
                    assert(map@.contains_key(*walked[j].0) && map@[*walked[j].0] == *walked[j].1);
                    assert(walked[i] == walked[j]);
                }
            }
            assert forall|k: u32| #[trigger] map@.contains_key(k) implies fds@.contains(
                Fd { fd: k, mode: map@[k] },
            ) by {
                assert(walked.contains((&k, &map@[k])));
                let i = choose|i: int| 0 <= i < walked.len() && walked[i] == (&k, &map@[k]);
                assert(fds@[i] == Fd { fd: k, mode: map@[k] });
            }
            assert forall|i: int| 0 <= i < fds@.len() implies map@.contains_key(
                #[trigger] fds@[i].fd,
            ) && map@[fds@[i].fd] == fds@[i].mode by {
                assert(map@.contains_key(*walked[i].0) && map@[*walked[i].0] == *walked[i].1);
            }
        }
        FdSet { fds }
    }

    /// Define the standard request, using STDIN, STDOUT, and STDERR.
    pub fn standard() -> (set: FdSet)
        ensures
            set@ == seq![
                Fd { fd: 0, mode: FdMode::ToChild },
                Fd { fd: 1, mode: FdMode::FromChild },
                Fd { fd: 2, mode: FdMode::FromChild },
            ],
    {
        let modes = [FdMode::ToChild, FdMode::FromChild, FdMode::FromChild];
        let set = FdSet::basic(modes.as_slice());
        assert(set@ =~= seq![
            Fd { fd: 0, mode: FdMode::ToChild },
            Fd { fd: 1, mode: FdMode::FromChild },
            Fd { fd: 2, mode: FdMode::FromChild },
        ]);
        set
    }

    /// Retrieve the file descriptor modes used in the request.
    pub fn modes(&self) -> (fds: Vec<Fd>)
        ensures
            fds@ == self@,
    {
        self.fds.clone()
    }

    pub fn len(&self) -> (n: usize)
        ensures
            n == self@.len(),
    {
        self.fds.len()
    }

    /// Tells whether no logical descriptor is named twice.
    pub fn is_unique(&self) -> (r: bool)
        ensures
            r == unique_fds(self@),
    {
        let mut j: usize = 0;
        while j < self.fds.len()
            invariant
                j <= self.fds@.len(),
                forall|a: int, b: int| 0 <= a < b < j ==> self.fds@[a].fd != self.fds@[b].fd,
            decreases self.fds@.len() - j,
        {
            let mut i: usize = 0;
            while i < j
                invariant
                    i <= j < self.fds@.len(),
                    forall|a: int| 0 <= a < i ==> self.fds@[a].fd != self.fds@[j as int].fd,
                decreases j - i,
            {
                if self.fds[i].fd == self.fds[j].fd {
                    return false;
                }
                i += 1;
            }
            j += 1;
        }
        true
    }
}

/// Describes how to launch the child process.  Paths and strings are held as
/// the bytes that the operating system knows them by.
pub struct LaunchEnv {
    pub cmd: Vec<u8>,
    pub args: Vec<Vec<u8>>,
    pub cwd: Vec<u8>,
    /// The environment of the child.  No key may occur twice.
    pub env: Vec<(Vec<u8>, Vec<u8>)>,
    pub fds: FdSet,
}

/// True where no key is named twice.
pub open spec fn unique_keys(env: Seq<(Seq<u8>, Seq<u8>)>) -> bool {
    forall|i: int, j: int| 0 <= i < j < env.len() ==> env[i].0 != env[j].0
}

/// True for the error that a request gives which names a descriptor or a
/// variable twice.
pub open spec fn is_named_twice(e: SandboxError, fds: Seq<Fd>) -> bool {
    e matches SandboxError::JailSetup(m) && m@ == (if !unique_fds(fds) {
        "a descriptor is named twice"@
    } else {
        "a variable is named twice"@
    })
}

impl LaunchEnv {
    /// True for a request that keeps the rules: no logical descriptor and no
    /// key of the environment is named twice.
    pub open spec fn well_formed(&self) -> bool {
        unique_fds(self.fds@) && unique_keys(self.env.deep_view())
    }

    /// Holds the request to its rules: one that names a descriptor or a
    /// variable of the environment twice is refused.
    pub fn validate(&self) -> (r: Result<(), SandboxError>)
        ensures
            self.well_formed() <==> r is Ok,
            r matches Err(e) ==> is_named_twice(e, self.fds@),
    {
        if !self.fds.is_unique() {
            return Err(SandboxError::JailSetup(String::from_str("a descriptor is named twice")));
        }
        let ghost vars = self.env.deep_view();
        let mut j: usize = 0;
        while j < self.env.len()
            invariant
                j <= self.env@.len(),
                vars == self.env.deep_view(),
                unique_fds(self.fds@),
                forall|a: int, b: int| 0 <= a < b < j ==> vars[a].0 != vars[b].0,
            decreases self.env@.len() - j,
        {
            assert(vars[j as int] == (self.env@[j as int].0@, self.env@[j as int].1@));
            let mut i: usize = 0;
            while i < j
                invariant
                    i <= j < self.env@.len(),
                    vars == self.env.deep_view(),
                    unique_fds(self.fds@),
                    forall|a: int| 0 <= a < i ==> vars[a].0 != vars[j as int].0,
                decreases j - i,
            {
                assert(vars[i as int] == (self.env@[i as int].0@, self.env@[i as int].1@));
                assert(vars[j as int] == (self.env@[j as int].0@, self.env@[j as int].1@));
                if bytes_eq(&self.env[i].0, &self.env[j].0) {
                    return Err(
                        SandboxError::JailSetup(String::from_str("a variable is named twice")),
                    );
                }
                i += 1;
            }
            j += 1;
        }
        Ok(())
    }
}

/// The parent's end of a pipe to the child, as long as nobody has taken it.
pub struct StreamSlot<S> {
    /// Whether the parent writes to the child through it.
    pub to_child: bool,
    /// The end itself.
    pub end: S,
}

/// What a taking of a stream has to do to the streams that are left, and what
/// it has to hand out.  The stream is handed out exactly where it is still
/// there and flows the way that was asked for, and then it is gone.  A taking
/// that hands out nothing may use the stream up all the same; nothing else
/// changes.
pub open spec fn is_take_step<S>(
    before: Map<u32, StreamSlot<S>>,
    fd: u32,
    to_child: bool,
    taken: Option<S>,
    after: Map<u32, StreamSlot<S>>,
) -> bool {
    &&& taken == (if before.contains_key(fd) && before[fd].to_child == to_child {
        Some(before[fd].end)
    } else {
        None
    })
    &&& after == before.remove(fd) || (taken is None && after == before)
}

/// Simple method for communicating with the child process.
///
/// Whoever holds a child performs the system calls himself and tells the child
/// what came of them: of the attempt to end it, and of a look whether it has
/// ended.
pub trait Child {
    /// What a stream is handed out as.
    type Stream;

    /// What is reported of an attempt to end the child.
    type Attempt;

    /// What is reported of a look whether the child has ended.
    type Waited;

    /// Why the child could not be ended.
    type Failure;

    /// The streams that are still to be had, by the descriptor under which the
    /// child sees its end.
    spec fn slots(&self) -> Map<u32, StreamSlot<Self::Stream>>;

    /// The exit status of the child, once it is known.
    spec fn known_exit(&self) -> Option<i32>;

    /// True once the child was ended for good.
    spec fn ended(&self) -> bool;

    /// Request a hard termination of the child process.  `attempt` tells
    /// what came of the attempt to end it, or is `None` where none was made.
    /// A child that was ended is not touched again: the request is granted,
    /// whatever `attempt` holds, and nothing changes.
    fn terminate(&mut self, attempt: Option<Self::Attempt>) -> (r: Result<(), Self::Failure>)
        ensures
            final(self).slots() == old(self).slots(),
            r is Ok ==> final(self).ended(),
            old(self).ended() ==> r is Ok && final(self).known_exit() == old(self).known_exit(),
    ;

    /// Take the stream that receives from the child, as was marked with the child's FD.
    /// If called again with the same FD, this will return None.
    fn take_stream_from_child(&mut self, fd: u32) -> (r: Option<Self::Stream>)
        ensures
            is_take_step(old(self).slots(), fd, false, r, final(self).slots()),
            final(self).known_exit() == old(self).known_exit(),
            final(self).ended() == old(self).ended(),
    ;

    /// Take the stream that sends to the child, as was marked with the child's FD.
    /// If called again with the same FD, this will return None.
    fn take_stream_to_child(&mut self, fd: u32) -> (r: Option<Self::Stream>)
        ensures
            is_take_step(old(self).slots(), fd, true, r, final(self).slots()),
            final(self).known_exit() == old(self).known_exit(),
            final(self).ended() == old(self).ended(),
    ;

    /// Get the current exit status for the child process.  `waited` tells
    /// what a look at the child gave just now.  A status that is known is
    /// given again, whatever `waited` holds.
    fn exit_status(&mut self, waited: Self::Waited) -> (r: Option<i32>)
        ensures
            final(self).slots() == old(self).slots(),
            old(self).ended() ==> final(self).ended(),
            r == final(self).known_exit(),
            old(self).known_exit() is Some ==> r == old(self).known_exit(),
    ;
}

/// Handles communication to the child from the parent process.
///
/// This is the basic communication method for handling requests from the child process.
pub trait CommHandler {
    fn handle<C: Child>(self, child: &mut C) -> Result<(), IoError>;
}

/// One taking of a stream, as a handler asks for it.
pub struct Take {
    pub fd: u32,
    pub to_child: bool,
}

/// True for a run of takings on a child: `states` holds the streams before
/// the first taking and after each, `taken` what each taking handed out.
pub open spec fn is_take_run<S>(
    states: Seq<Map<u32, StreamSlot<S>>>,
    takes: Seq<Take>,
    taken: Seq<Option<S>>,
) -> bool {
    &&& states.len() == takes.len() + 1
    &&& taken.len() == takes.len()
    &&& forall|k: int|
        0 <= k < takes.len() ==> is_take_step(
            states[k],
            (#[trigger] takes[k]).fd,
            takes[k].to_child,
            taken[k],
            states[k + 1],
        )
}

/// Through a run of takings the streams only get fewer, and none changes.
pub proof fn lemma_streams_only_leave<S>(
    states: Seq<Map<u32, StreamSlot<S>>>,
    takes: Seq<Take>,
    taken: Seq<Option<S>>,
    k: int,
)
    requires
        is_take_run(states, takes, taken),
        0 <= k <= takes.len(),
    ensures
        forall|fd: u32| #[trigger]
            states[k].contains_key(fd) ==> states[0].contains_key(fd) && states[k][fd]
                == states[0][fd],
        forall|fd: u32|
            (forall|i: int| 0 <= i < k ==> (#[trigger] takes[i]).fd != fd) ==> (
            states[k].contains_key(fd) <==> states[0].contains_key(fd)),
    decreases k,
{
    if k > 0 {
        lemma_streams_only_leave(states, takes, taken, k - 1);
        assert(is_take_step(
            states[k - 1],
            takes[k - 1].fd,
            takes[k - 1].to_child,
            taken[k - 1],
            states[k],
        ));
        assert forall|fd: u32|
            (forall|i: int| 0 <= i < k ==> (#[trigger] takes[i]).fd != fd) implies (
        states[k].contains_key(fd) <==> states[0].contains_key(fd)) by {
            assert(takes[k - 1].fd != fd);
            assert forall|i: int| 0 <= i < k - 1 implies (#[trigger] takes[i]).fd != fd by {}
        }
    }
}

/// A stream that flows to the child is never handed out as one that flows
/// from it, and the other way round: whatever was taken before, a taking that
/// asks for the wrong direction gets nothing.
pub proof fn lemma_never_the_wrong_direction<S>(
    states: Seq<Map<u32, StreamSlot<S>>>,
    takes: Seq<Take>,
    taken: Seq<Option<S>>,
    k: int,
)
    requires
        is_take_run(states, takes, taken),
        0 <= k < takes.len(),
        states[0].contains_key(takes[k].fd) ==> states[0][takes[k].fd].to_child
            != takes[k].to_child,
    ensures
        taken[k] is None,
{
    lemma_streams_only_leave(states, takes, taken, k);
    assert(is_take_step(states[k], takes[k].fd, takes[k].to_child, taken[k], states[k + 1]));
}

/// A stream is handed out at most once: of two takings of one descriptor, the
/// later gets nothing where the earlier got the stream.
pub proof fn lemma_taken_at_most_once<S>(
    states: Seq<Map<u32, StreamSlot<S>>>,
    takes: Seq<Take>,
    taken: Seq<Option<S>>,
    i: int,
    j: int,
)
    requires
        is_take_run(states, takes, taken),
        0 <= i < j < takes.len(),
        takes[i].fd == takes[j].fd,
        taken[i] is Some,
    ensures
        taken[j] is None,
{
    let fd = takes[i].fd;
    assert(is_take_step(states[i], takes[i].fd, takes[i].to_child, taken[i], states[i + 1]));
    assert(!states[i + 1].contains_key(fd));
    lemma_stream_stays_gone(states, takes, taken, i + 1, j, fd);
    assert(is_take_step(states[j], takes[j].fd, takes[j].to_child, taken[j], states[j + 1]));
}

/// A stream that is gone stays gone.
proof fn lemma_stream_stays_gone<S>(
    states: Seq<Map<u32, StreamSlot<S>>>,
    takes: Seq<Take>,
    taken: Seq<Option<S>>,
    from: int,
    to: int,
    fd: u32,
)
    requires
        is_take_run(states, takes, taken),
        0 <= from <= to <= takes.len(),
        !states[from].contains_key(fd),
    ensures
        !states[to].contains_key(fd),
    decreases to - from,
{
    if from < to {
        lemma_stream_stays_gone(states, takes, taken, from, to - 1, fd);
        assert(is_take_step(
            states[to - 1],
            takes[to - 1].fd,
            takes[to - 1].to_child,
            taken[to - 1],
            states[to],
        ));
    }
}

/// The first taking of a descriptor gets the stream where it asks for the
/// direction that the stream has.
pub proof fn lemma_first_taking_gets_the_stream<S>(
    states: Seq<Map<u32, StreamSlot<S>>>,
    takes: Seq<Take>,
    taken: Seq<Option<S>>,
    k: int,
)
    requires
        is_take_run(states, takes, taken),
        0 <= k < takes.len(),
        forall|i: int| 0 <= i < k ==> (#[trigger] takes[i]).fd != takes[k].fd,
        states[0].contains_key(takes[k].fd),
        states[0][takes[k].fd].to_child == takes[k].to_child,
    ensures
        taken[k] == Some(states[0][takes[k].fd].end),
{
    lemma_streams_only_leave(states, takes, taken, k);
    assert(is_take_step(states[k], takes[k].fd, takes[k].to_child, taken[k], states[k + 1]));
}

} // verus!
