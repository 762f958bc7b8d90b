//! Construct file descriptors for the passing between the parent and child processes.
//!
//! The pipes themselves are made by the caller.  Here each pipe is given its
//! logical descriptor, its ends are dealt out to parent and child, and the
//! descriptors that the child keeps are collected.

use crate::runtime::error::SandboxError;
use crate::runtime::spawn::{Fd, FdMode, FdSet};
use std::collections::HashSet;
use vstd::prelude::*;
use vstd::std_specs::iter::IteratorSpec;
use vstd::string::StringExecFns;

verus! {

broadcast use vstd::std_specs::hash::group_hash_axioms;

#[derive(Debug, Clone, Copy, PartialEq, Eq, Structural)]
pub enum StreamDirection {
    ToChild,
    FromChild,
}

/// The two ends of a pipe, as the descriptors that the system gave them.
#[derive(Debug, Clone, Copy, PartialEq, Eq, Structural)]
pub struct PipeEnds {
    pub read_fd: i32,
    pub write_fd: i32,
}

/// One pipe between parent and child, and the descriptor under which the child
/// is to see its end.
#[derive(Debug, Clone, Copy, PartialEq, Eq, Structural)]
pub struct FdForkMap {
    pub dup_to: u32,
    /// FD used by the parent.
    pub parent_fd: i32,
    /// FD used by the child.
    pub child_fd: i32,
    pub direction: StreamDirection,
}

/// Maps the FD as requested that the child sees the connection + the stream to
/// talk with the child.
#[derive(Debug, Clone, Copy, PartialEq, Eq, Structural)]
pub struct FdMap {
    pub dup_to: u32,
    /// The parent's end of the pipe.
    pub stream: i32,
    pub direction: StreamDirection,
}

/// One duplication that the child performs before it runs the program: the
/// descriptor `source` is made to answer under the number `target` as well.
#[derive(Debug, Clone, Copy, PartialEq, Eq, Structural)]
pub struct DupOp {
    pub source: i32,
    pub target: i32,
}

pub struct ForkedFd {
    fds: Vec<FdForkMap>,
    keep_fds: HashSet<i32>,
}

/// True for the modes that are served by a pipe.
pub open spec fn wants_pipe(mode: FdMode) -> bool {
    mode == FdMode::ToChild || mode == FdMode::FromChild
}

/// The number of pipes that a request asks for.
pub open spec fn pipes_wanted(fds: Seq<Fd>) -> nat
    decreases fds.len(),
{
    if fds.len() == 0 {
        0
    } else {
        pipes_wanted(fds.drop_last()) + if wants_pipe(fds.last().mode) {
            1nat
        } else {
            0nat
        }
    }
}

/// A logical descriptor as the number that the system calls take.
pub open spec fn c_int_of(fd: u32) -> i32 {
    if fd <= i32::MAX {
        fd as i32
    } else {
        (fd - 0x1_0000_0000) as i32
    }
}

/// How the ends of a pipe are dealt out: the parent writes and the child reads
/// where data flows to the child, and the other way round where it flows from
/// the child.
pub open spec fn wire(fd: Fd, ends: PipeEnds) -> FdForkMap {
    if fd.mode == FdMode::ToChild {
        FdForkMap {
            dup_to: fd.fd,
            parent_fd: ends.write_fd,
            child_fd: ends.read_fd,
            direction: StreamDirection::ToChild,
        }
    } else {
        FdForkMap {
            dup_to: fd.fd,
            parent_fd: ends.read_fd,
            child_fd: ends.write_fd,
            direction: StreamDirection::FromChild,
        }
    }
}

/// The pipes of a request, in its order, each entry that wants one with the
/// next of the pipes given.
pub open spec fn fork_maps(fds: Seq<Fd>, pipes: Seq<PipeEnds>) -> Seq<FdForkMap>
    decreases fds.len(),
{
    if fds.len() == 0 {
        Seq::empty()
    } else {
        let before = fork_maps(fds.drop_last(), pipes);
        if wants_pipe(fds.last().mode) {
            before.push(wire(fds.last(), pipes[pipes_wanted(fds.drop_last()) as int]))
        } else {
            before
        }
    }
}

/// The descriptors that the child keeps: every one that the request names with
/// a mode other than `Null`.
pub open spec fn kept_fds(fds: Seq<Fd>) -> Set<i32> {
    Set::new(
        |c: i32|
            exists|i: int|
                0 <= i < fds.len() && (#[trigger] fds[i]).mode != FdMode::Null && c_int_of(fds[i].fd)
                    == c,
    )
}

/// The parent's share of a pipe.
pub open spec fn parent_share(map: FdForkMap) -> FdMap {
    FdMap { dup_to: map.dup_to, stream: map.parent_fd, direction: map.direction }
}

/// The duplication that brings the child's end of a pipe to its place.
pub open spec fn child_dup(map: FdForkMap) -> DupOp {
    DupOp { source: map.child_fd, target: c_int_of(map.dup_to) }
}

/// The number that the system calls take for a logical descriptor.
pub fn as_c_int(fd: u32) -> (c: i32)
    ensures
        c == c_int_of(fd),
{
    if fd <= 0x7fff_ffff {
        fd as i32
    } else {
        (fd as i64 - 0x1_0000_0000) as i32
    }
}

/// The number of pipes that the request needs.
pub fn count_pipes(config: &FdSet) -> (n: usize)
    ensures
        n == pipes_wanted(config@),
{
    let modes = config.modes();
    let mut n: usize = 0;
    let mut i: usize = 0;
    assert(modes@.take(0) =~= Seq::<Fd>::empty());
    while i < modes.len()
        invariant
            i <= modes@.len(),
            n <= i,
            n == pipes_wanted(modes@.take(i as int)),
        decreases modes@.len() - i,
    {
        assert(modes@.take(i + 1).drop_last() =~= modes@.take(i as int));
        match modes[i].mode {
            FdMode::ToChild => {
                n += 1;
            },
            FdMode::FromChild => {
                n += 1;
            },
            _ => {},
        }
        i += 1;
    }
    assert(modes@.take(i as int) =~= modes@);
    n
}

impl ForkedFd {
    /// The pipes, in the order of the request.
    pub closed spec fn maps(&self) -> Seq<FdForkMap> {
        self.fds@
    }

    /// The descriptors that the child keeps.
    pub closed spec fn keeps(&self) -> Set<i32> {
        self.keep_fds@
    }

    /// Construct the new forked FD mappings from a request and the pipes that
    /// were made for it, one for each entry that wants one, in the order of the
    /// entries.  Any other number of pipes is refused.
    pub fn new(config: FdSet, pipes: Vec<PipeEnds>) -> (r: Result<ForkedFd, SandboxError>)
        ensures
            pipes@.len() == pipes_wanted(config@) <==> r is Ok,
            r matches Ok(forked) ==> forked.maps() == fork_maps(config@, pipes@) && forked.keeps()
                == kept_fds(config@),
            r matches Err(e) ==> e matches SandboxError::JailSetup(m) && m@
                == "pipes do not match the requested descriptors"@,
    {
        if pipes.len() != count_pipes(&config) {
            return Err(
                SandboxError::JailSetup(
                    String::from_str("pipes do not match the requested descriptors"),
                ),
            );
        }
        let modes = config.modes();
        let mut fds: Vec<FdForkMap> = Vec::new();
        let mut keep_fds: HashSet<i32> = HashSet::new();
        let mut next: usize = 0;
        let mut i: usize = 0;
        proof {
            assert(modes@.take(0) =~= Seq::<Fd>::empty());
            assert(keep_fds@ =~= kept_fds(modes@.take(0)));
        }
        while i < modes.len()
            invariant
                i <= modes@.len(),
                pipes@.len() == pipes_wanted(modes@),
                next <= i,
                next == pipes_wanted(modes@.take(i as int)),
                fds@ == fork_maps(modes@.take(i as int), pipes@),
                keep_fds@ == kept_fds(modes@.take(i as int)),
            decreases modes@.len() - i,
        {
            let fd_m = modes[i];
            let ghost before = modes@.take(i as int);
            let ghost now = modes@.take(i + 1);
            proof {
                assert(now.drop_last() =~= before);
                assert(now.last() == fd_m);
                lemma_pipes_wanted_grows(modes@, i + 1);
            }
            match fd_m.mode {
                FdMode::Null => {},
                FdMode::KeepInChild => {
                    // Keep the FD open in the child without redirection.
                    keep_fds.insert(as_c_int(fd_m.fd));
                },
                FdMode::FromChild => {
                    let ends = pipes[next];
                    fds.push(
                        FdForkMap {
                            dup_to: fd_m.fd,
                            parent_fd: ends.read_fd,
                            child_fd: ends.write_fd,
                            direction: StreamDirection::FromChild,
                        },
                    );
                    keep_fds.insert(as_c_int(fd_m.fd));
                    next += 1;
                },
                FdMode::ToChild => {
                    let ends = pipes[next];
                    fds.push(
                        FdForkMap {
                            dup_to: fd_m.fd,
                            parent_fd: ends.write_fd,
                            child_fd: ends.read_fd,
                            direction: StreamDirection::ToChild,
                        },
                    );
                    keep_fds.insert(as_c_int(fd_m.fd));
                    next += 1;
                },
            }
            proof {
                assert forall|c: i32| keep_fds@.contains(c) <==> kept_fds(now).contains(
                    c,
                ) by {
                    if kept_fds(now).contains(c) {
                        let k = choose|k: int|
                            0 <= k < now.len() && (#[trigger] now[k]).mode != FdMode::Null
                                && c_int_of(now[k].fd) == c;
                        if k < i {
                            assert(before[k] == now[k]);
                            assert(kept_fds(before).contains(c));
                        }
                    }
                    if kept_fds(before).contains(c) {
                        let k = choose|k: int|
                            0 <= k < before.len() && (#[trigger] before[k]).mode != FdMode::Null
                                && c_int_of(before[k].fd) == c;
                        assert(now[k] == before[k]);
                    }
                    if fd_m.mode != FdMode::Null && c == c_int_of(fd_m.fd) {
                        assert(now[i as int] == fd_m);
                    }
                }
                assert(keep_fds@ =~= kept_fds(now));
            }
            i += 1;
        }
        assert(modes@.take(i as int) =~= modes@);
        Ok(ForkedFd { fds, keep_fds })
    }

    /// Get the list of FDs that the child process will use.
    pub fn child_fd_list(&self) -> (list: HashSet<i32>)
        ensures
            list@ == self.keeps(),
    {
        let mut list: HashSet<i32> = HashSet::new();
        for fd in it: self.keep_fds.iter()
            invariant
                it.seq() == self.keep_fds.iter().remaining(),
                forall|c: i32|
                    list@.contains(c) <==> exists|k: int|
                        0 <= k < it.index() && *(#[trigger] it.seq()[k]) == c,
        {
            let ghost before = list@;
            let ghost at = it.index();
            list.insert(*fd);
            proof {
                assert forall|c: i32| list@.contains(c) <==> exists|k: int|
                    0 <= k < at + 1 && *(#[trigger] it.seq()[k]) == c by {
                    if c == *fd {
                        assert(*it.seq()[at] == c);
                    }
                    if before.contains(c) {
                        let k = choose|k: int| 0 <= k < at && *(#[trigger] it.seq()[k]) == c;
                        assert(*it.seq()[k] == c);
                    }
                }
            }
        }
        proof {
            let walked = self.keep_fds.iter().remaining();
            assert forall|c: i32| list@.contains(c) <==> self.keep_fds@.contains(c) by {
                if list@.contains(c) {
                    let k = choose|k: int| 0 <= k < walked.len() && *(#[trigger] walked[k]) == c;
                    assert(walked.unref()[k] == c);
                    assert(walked.unref().to_set().contains(c));
                }
                if self.keep_fds@.contains(c) {
                    assert(walked.unref().to_set().contains(c));
                    let k = choose|k: int| 0 <= k < walked.unref().len() && walked.unref()[k] == c;
                    assert(*walked[k] == c);
                }
            }
            assert(list@ =~= self.keep_fds@);
        }
        list
    }

    /// The parent's ends of the pipes, for use after the child was forked: what
    /// the parent talks to the child through.
    pub fn parent_after_fork(&self) -> (streams: Vec<FdMap>)
        ensures
            streams@ == self.maps().map_values(|m: FdForkMap| parent_share(m)),
    {
        let mut ret: Vec<FdMap> = Vec::new();
        let mut i: usize = 0;
        while i < self.fds.len()
            invariant
                i <= self.fds@.len(),
                ret@ == self.fds@.take(i as int).map_values(|m: FdForkMap| parent_share(m)),
            decreases self.fds@.len() - i,
        {
            let fd = self.fds[i];
            ret.push(FdMap { dup_to: fd.dup_to, stream: fd.parent_fd, direction: fd.direction });
            i += 1;
            assert(ret@ =~= self.fds@.take(i as int).map_values(|m: FdForkMap| parent_share(m)));
        }
        assert(self.fds@.take(i as int) =~= self.fds@);
        ret
    }

    /// The child's ends of the pipes, which the parent closes once the child
    /// was forked.
    pub fn parent_closes(&self) -> (ends: Vec<i32>)
        ensures
            ends@ == self.maps().map_values(|m: FdForkMap| m.child_fd),
    {
        let mut ret: Vec<i32> = Vec::new();
        let mut i: usize = 0;
        while i < self.fds.len()
            invariant
                i <= self.fds@.len(),
                ret@ == self.fds@.take(i as int).map_values(|m: FdForkMap| m.child_fd),
            decreases self.fds@.len() - i,
        {
            ret.push(self.fds[i].child_fd);
            i += 1;
            assert(ret@ =~= self.fds@.take(i as int).map_values(|m: FdForkMap| m.child_fd));
        }
        assert(self.fds@.take(i as int) =~= self.fds@);
        ret
    }

    /// The duplications that the child performs after the fork to prepare its
    /// file descriptors, in the order of the request.  The list is made before
    /// the fork: the child must not allocate memory.
    pub fn child_after_fork(&self) -> (dups: Vec<DupOp>)
        ensures
            dups@ == self.maps().map_values(|m: FdForkMap| child_dup(m)),
    {
        let mut ret: Vec<DupOp> = Vec::new();
        let mut i: usize = 0;
        while i < self.fds.len()
            invariant
                i <= self.fds@.len(),
                ret@ == self.fds@.take(i as int).map_values(|m: FdForkMap| child_dup(m)),
            decreases self.fds@.len() - i,
        {
            let fd = self.fds[i];
            ret.push(DupOp { source: fd.child_fd, target: as_c_int(fd.dup_to) });
            i += 1;
            assert(ret@ =~= self.fds@.take(i as int).map_values(|m: FdForkMap| child_dup(m)));
        }
        assert(self.fds@.take(i as int) =~= self.fds@);
        ret
    }
}

/// A shorter request asks for no more pipes than a longer one that starts
/// with it.
pub proof fn lemma_pipes_wanted_grows(fds: Seq<Fd>, count: int)
    requires
        0 <= count <= fds.len(),
    ensures
        pipes_wanted(fds.take(count)) <= pipes_wanted(fds),
        count < fds.len() && wants_pipe(fds[count].mode) ==> pipes_wanted(fds.take(count))
            < pipes_wanted(fds),
    decreases fds.len(),
{
    if count < fds.len() {
        assert(fds.drop_last().take(count) =~= fds.take(count));
        if count < fds.len() - 1 {
            lemma_pipes_wanted_grows(fds.drop_last(), count);
            assert(fds.drop_last()[count] == fds[count]);
        }
    } else {
        assert(fds.take(count) =~= fds);
    }
}

/// The pipes come out for the parent and for the child alike: each entry that
/// is served by a pipe has one, the parent holds the end that fits the mode
/// of the entry, and the child is given the other end under the number of
/// the entry.
pub proof fn lemma_fork_maps_follow(fds: Seq<Fd>, pipes: Seq<PipeEnds>)
    ensures
        fork_maps(fds, pipes).len() == pipes_wanted(fds),
        forall|k: int|
            0 <= k < fork_maps(fds, pipes).len() ==> exists|i: int|
                0 <= i < fds.len() && wants_pipe(fds[i].mode) && (#[trigger] fork_maps(
                    fds,
                    pipes,
                )[k]).dup_to == fds[i].fd && (fork_maps(fds, pipes)[k].direction
                    == StreamDirection::ToChild <==> fds[i].mode == FdMode::ToChild),
    decreases fds.len(),
{
    if fds.len() > 0 {
        let init = fds.drop_last();
        lemma_fork_maps_follow(init, pipes);
        let maps = fork_maps(fds, pipes);
        assert forall|k: int| 0 <= k < maps.len() implies exists|i: int|
            0 <= i < fds.len() && wants_pipe(fds[i].mode) && (#[trigger] maps[k]).dup_to
                == fds[i].fd && (maps[k].direction == StreamDirection::ToChild <==> fds[i].mode
                == FdMode::ToChild) by {
            if k < fork_maps(init, pipes).len() {
                let i = choose|i: int|
                    0 <= i < init.len() && wants_pipe(init[i].mode) && fork_maps(
                        init,
                        pipes,
                    )[k].dup_to == init[i].fd && (fork_maps(init, pipes)[k].direction
                        == StreamDirection::ToChild <==> init[i].mode == FdMode::ToChild);
                assert(fds[i] == init[i]);
            } else {
                assert(wants_pipe(fds[fds.len() - 1].mode));
            }
        }
    }
}

/// The closing of descriptors spares what was installed: the number under
/// which the child gets its end of a pipe is one of the descriptors that it
/// keeps.
pub proof fn lemma_dup_targets_are_kept(fds: Seq<Fd>, pipes: Seq<PipeEnds>, k: int)
    requires
        0 <= k < fork_maps(fds, pipes).len(),
    ensures
        kept_fds(fds).contains(child_dup(fork_maps(fds, pipes)[k]).target),
{
    lemma_fork_maps_follow(fds, pipes);
    let map = fork_maps(fds, pipes)[k];
    let i = choose|i: int|
        0 <= i < fds.len() && wants_pipe(fds[i].mode) && map.dup_to == fds[i].fd && (map.direction
            == StreamDirection::ToChild <==> fds[i].mode == FdMode::ToChild);
    assert(fds[i].mode != FdMode::Null && c_int_of(fds[i].fd) == child_dup(map).target);
}

} // verus!
