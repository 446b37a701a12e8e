//! The mathematical model of a registry and the transitions that the
//! operations of this crate perform on it.
use vstd::prelude::*;

use crate::{Pgid, Pid, Sid};

verus! {

/// What the registry records about one process.
pub ghost struct ProcessState {
    /// The parent, absent for a root process and after the parent was freed.
    pub parent: Option<Pid>,
    /// The children this process currently owns.
    pub children: Set<Pid>,
    /// The process group this process belongs to.
    pub group: Pgid,
    /// Whether the process has exited.
    pub zombie: bool,
    /// The length of the chain of forks that led from a root to this process.
    pub generation: nat,
    /// The threads that have not exited yet.
    pub threads: Set<Pid>,
    /// The exit code recorded by the thread group.
    pub exit_code: i32,
    /// Whether a group-wide exit was requested.
    pub group_exited: bool,
}

/// What the registry records about one process group.
pub ghost struct GroupState {
    /// The session that contains the group.
    pub session: Sid,
    /// The processes that belong to the group.
    pub members: Set<Pid>,
}

/// What the registry records about one session.
pub ghost struct SessionState {
    /// The process groups that belong to the session.
    pub groups: Set<Pgid>,
}

/// The three registries and the identifier allocator, as mathematical maps.
pub ghost struct RegistryView {
    /// Process id to process.
    pub processes: Map<Pid, ProcessState>,
    /// Process group id to process group.
    pub groups: Map<Pgid, GroupState>,
    /// Session id to session.
    pub sessions: Map<Sid, SessionState>,
    /// The smallest identifier that the allocator has not passed yet.
    pub next_pid: nat,
}

/// One more than the largest identifier.
pub open spec fn id_limit() -> nat {
    0x1_0000_0000
}

impl ProcessState {
    /// A process that has just been created.
    pub open spec fn fresh(parent: Option<Pid>, group: Pgid, generation: nat) -> ProcessState {
        ProcessState {
            parent,
            children: Set::empty(),
            group,
            zombie: false,
            generation,
            threads: Set::empty(),
            exit_code: 0,
            group_exited: false,
        }
    }
}

/// The allocator position after an identifier chosen by the caller came into
/// use: it never moves backwards and always lies beyond every used identifier.
pub open spec fn advanced(next_pid: nat, id: u32) -> nat {
    if id < next_pid {
        next_pid
    } else {
        (id + 1) as nat
    }
}

impl RegistryView {
    /// The registry before anything was created: the allocator starts at 1.
    pub open spec fn empty() -> RegistryView {
        RegistryView {
            processes: Map::empty(),
            groups: Map::empty(),
            sessions: Map::empty(),
            next_pid: 1,
        }
    }

    /// No process, process group or session carries `id`.
    pub open spec fn is_unused(self, id: u32) -> bool {
        &&& !self.processes.contains_key(id)
        &&& !self.groups.contains_key(id)
        &&& !self.sessions.contains_key(id)
    }

    /// The session of the group that `pid` belongs to.
    pub open spec fn session_of(self, pid: Pid) -> Sid {
        self.groups[self.processes[pid].group].session
    }

    /// Every process belongs to a registered group that lists it.
    pub open spec fn processes_grouped(self) -> bool {
        forall|p: Pid| #[trigger]
            self.processes.contains_key(p) ==> self.groups.contains_key(self.processes[p].group)
                && self.groups[self.processes[p].group].members.contains(p)
    }

    /// Every member of a group is a registered process of that group.
    pub open spec fn members_registered(self) -> bool {
        forall|g: Pgid, p: Pid|
            self.groups.contains_key(g) && #[trigger] self.groups[g].members.contains(p)
                ==> self.processes.contains_key(p) && self.processes[p].group == g
    }

    /// No registered group is empty.
    pub open spec fn groups_inhabited(self) -> bool {
        forall|g: Pgid| #[trigger]
            self.groups.contains_key(g) ==> !self.groups[g].members.is_empty()
    }

    /// Every group belongs to a registered session that lists it.
    pub open spec fn groups_in_sessions(self) -> bool {
        forall|g: Pgid| #[trigger]
            self.groups.contains_key(g) ==> self.sessions.contains_key(self.groups[g].session)
                && self.sessions[self.groups[g].session].groups.contains(g)
    }

    /// Every group listed by a session is a registered group of that session.
    pub open spec fn session_groups_registered(self) -> bool {
        forall|s: Sid, g: Pgid|
            self.sessions.contains_key(s) && #[trigger] self.sessions[s].groups.contains(g)
                ==> self.groups.contains_key(g) && self.groups[g].session == s
    }

    /// No registered session is empty.
    pub open spec fn sessions_inhabited(self) -> bool {
        forall|s: Sid| #[trigger]
            self.sessions.contains_key(s) ==> !self.sessions[s].groups.is_empty()
    }

    /// Every child listed by a process is registered and names it as parent.
    pub open spec fn children_registered(self) -> bool {
        forall|q: Pid, c: Pid|
            self.processes.contains_key(q) && #[trigger] self.processes[q].children.contains(c)
                ==> self.processes.contains_key(c) && self.processes[c].parent == Some(q)
    }

    /// Every parent is registered and of an earlier generation; it lists the
    /// child unless it is a root that has exited.
    pub open spec fn parents_registered(self) -> bool {
        forall|c: Pid| #[trigger]
            self.processes.contains_key(c) && self.processes[c].parent is Some ==> {
                let q = self.processes[c].parent->0;
                &&& self.processes.contains_key(q)
                &&& self.processes[q].generation < self.processes[c].generation
                &&& (self.processes[q].children.contains(c) || (self.processes[q].zombie
                    && self.processes[q].parent is None))
            }
    }

    /// A process whose id names a session belongs to that session.
    pub open spec fn leaders_in_sessions(self) -> bool {
        forall|s: Sid| #[trigger]
            self.sessions.contains_key(s) && self.processes.contains_key(s) ==> self.session_of(s)
                == s
    }

    /// The allocator lies beyond every identifier in use.
    pub open spec fn ids_allocated(self) -> bool {
        &&& self.next_pid <= id_limit()
        &&& forall|p: Pid| #[trigger] self.processes.contains_key(p) ==> p < self.next_pid
        &&& forall|g: Pgid| #[trigger] self.groups.contains_key(g) ==> g < self.next_pid
        &&& forall|s: Sid| #[trigger] self.sessions.contains_key(s) ==> s < self.next_pid
    }

    /// The invariant of the registry: it holds between any two operations.
    pub open spec fn wf(self) -> bool {
        &&& self.processes_grouped()
        &&& self.members_registered()
        &&& self.groups_inhabited()
        &&& self.groups_in_sessions()
        &&& self.session_groups_registered()
        &&& self.sessions_inhabited()
        &&& self.children_registered()
        &&& self.parents_registered()
        &&& self.leaders_in_sessions()
        &&& self.ids_allocated()
    }

    /// The registry after a process `pid` was created: as a child of `parent`
    /// in the parent's group, or as a root leading a new group and session.
    pub open spec fn spawned(self, pid: Pid, parent: Option<Pid>) -> RegistryView {
        match parent {
            Some(q) => {
                let above = self.processes[q];
                let g = above.group;
                RegistryView {
                    processes: self.processes.insert(
                        q,
                        ProcessState { children: above.children.insert(pid), ..above },
                    ).insert(pid, ProcessState::fresh(Some(q), g, above.generation + 1)),
                    groups: self.groups.insert(
                        g,
                        GroupState {
                            members: self.groups[g].members.insert(pid),
                            ..self.groups[g]
                        },
                    ),
                    sessions: self.sessions,
                    next_pid: advanced(self.next_pid, pid),
                }
            },
            None => RegistryView {
                processes: self.processes.insert(pid, ProcessState::fresh(None, pid, 0)),
                groups: self.groups.insert(
                    pid,
                    GroupState { session: pid, members: Set::empty().insert(pid) },
                ),
                sessions: self.sessions.insert(
                    pid,
                    SessionState { groups: Set::empty().insert(pid) },
                ),
                next_pid: advanced(self.next_pid, pid),
            },
        }
    }

    /// The topmost ancestor of `pid`: the process reached by following parent
    /// links until there is none.
    pub open spec fn root_of(self, pid: Pid) -> Pid
        decreases self.processes[pid].generation,
        when self.parents_registered() && self.processes.contains_key(pid)
    {
        match self.processes[pid].parent {
            Some(q) => self.root_of(q),
            None => pid,
        }
    }

    /// The registry after `pid` exited and handed the children in `moved` over
    /// to `top`.
    pub open spec fn handed_over(self, pid: Pid, top: Pid, moved: Set<Pid>) -> RegistryView {
        RegistryView {
            processes: Map::new(
                |x: Pid| self.processes.contains_key(x),
                |x: Pid|
                    if x == pid {
                        ProcessState {
                            zombie: true,
                            children: Set::empty(),
                            ..self.processes[x]
                        }
                    } else if x == top {
                        ProcessState {
                            children: self.processes[x].children.union(moved),
                            ..self.processes[x]
                        }
                    } else if moved.contains(x) {
                        ProcessState { parent: Some(top), ..self.processes[x] }
                    } else {
                        self.processes[x]
                    },
            ),
            ..self
        }
    }

    /// The registry after `pid` exited: it is a zombie without children, and
    /// the children it had now belong to its topmost ancestor, if it has one.
    pub open spec fn exited(self, pid: Pid) -> RegistryView {
        let me = self.processes[pid];
        if me.parent is None {
            RegistryView {
                processes: self.processes.insert(
                    pid,
                    ProcessState { zombie: true, children: Set::empty(), ..me },
                ),
                ..self
            }
        } else {
            self.handed_over(pid, self.root_of(pid), me.children)
        }
    }

    /// The registry after `pid` left its group, and before it joins another:
    /// a group that became empty is gone and no longer listed by its session,
    /// and a session that became empty is gone if `drop_session` is set.
    pub open spec fn unlinked(self, pid: Pid, drop_session: bool) -> RegistryView {
        let g = self.processes[pid].group;
        let s = self.groups[g].session;
        let rest = self.groups[g].members.remove(pid);
        if rest.is_empty() {
            let left = self.sessions[s].groups.remove(g);
            RegistryView {
                groups: self.groups.remove(g),
                sessions: if drop_session && left.is_empty() {
                    self.sessions.remove(s)
                } else {
                    self.sessions.insert(s, SessionState { groups: left })
                },
                ..self
            }
        } else {
            RegistryView {
                groups: self.groups.insert(g, GroupState { members: rest, ..self.groups[g] }),
                ..self
            }
        }
    }

    /// The registry after `pid` joined the group `pgid`.  A group that is not
    /// registered is created in the session `sid`, and so is the session.
    pub open spec fn joined(self, pid: Pid, pgid: Pgid, sid: Sid) -> RegistryView {
        let processes = self.processes.insert(
            pid,
            ProcessState { group: pgid, ..self.processes[pid] },
        );
        if self.groups.contains_key(pgid) {
            RegistryView {
                processes,
                groups: self.groups.insert(
                    pgid,
                    GroupState {
                        members: self.groups[pgid].members.insert(pid),
                        ..self.groups[pgid]
                    },
                ),
                ..self
            }
        } else {
            RegistryView {
                processes,
                groups: self.groups.insert(
                    pgid,
                    GroupState { session: sid, members: Set::empty().insert(pid) },
                ),
                sessions: if self.sessions.contains_key(sid) {
                    self.sessions.insert(
                        sid,
                        SessionState { groups: self.sessions[sid].groups.insert(pgid) },
                    )
                } else {
                    self.sessions.insert(sid, SessionState { groups: Set::empty().insert(pgid) })
                },
                next_pid: advanced(self.next_pid, pgid),
                ..self
            }
        }
    }

    /// The registry after `pid` moved from its group into the group `pgid`
    /// of the session `sid`.
    pub open spec fn migrated(self, pid: Pid, pgid: Pgid, sid: Sid, drop_session: bool)
        -> RegistryView {
        self.unlinked(pid, drop_session).joined(pid, pgid, sid)
    }

    /// The registry after `pid` was reaped, when only the processes in
    /// `cleared` have forgotten yet that it was their parent.
    pub open spec fn released(self, pid: Pid, cleared: Set<Pid>) -> RegistryView {
        RegistryView {
            processes: Map::new(
                |x: Pid| x != pid && self.processes.contains_key(x),
                |x: Pid|
                    ProcessState {
                        parent: if self.processes[x].parent == Some(pid) && cleared.contains(x) {
                            None
                        } else {
                            self.processes[x].parent
                        },
                        children: self.processes[x].children.remove(pid),
                        ..self.processes[x]
                    },
            ),
            ..self.unlinked(pid, true)
        }
    }

    /// The registry after the zombie `pid` was reaped: it is gone from the
    /// process registry, from its parent's children and from its group, and no
    /// process names it as parent any more.
    pub open spec fn freed(self, pid: Pid) -> RegistryView {
        self.released(pid, self.processes.dom())
    }

    /// The registry after the thread `tid` joined the thread group of `pid`.
    pub open spec fn with_thread(self, pid: Pid, tid: Pid) -> RegistryView {
        let me = self.processes[pid];
        RegistryView {
            processes: self.processes.insert(
                pid,
                ProcessState { threads: me.threads.insert(tid), ..me },
            ),
            ..self
        }
    }

    /// The registry after the thread `tid` of `pid` exited with `exit_code`:
    /// the code is recorded unless a group-wide exit froze it.
    pub open spec fn thread_exited(self, pid: Pid, tid: Pid, exit_code: i32) -> RegistryView {
        let me = self.processes[pid];
        RegistryView {
            processes: self.processes.insert(
                pid,
                ProcessState {
                    threads: me.threads.remove(tid),
                    exit_code: if me.group_exited {
                        me.exit_code
                    } else {
                        exit_code
                    },
                    ..me
                },
            ),
            ..self
        }
    }

    /// The registry after a group-wide exit was requested for `pid`.
    pub open spec fn group_exit_requested(self, pid: Pid) -> RegistryView {
        RegistryView {
            processes: self.processes.insert(
                pid,
                ProcessState { group_exited: true, ..self.processes[pid] },
            ),
            ..self
        }
    }

    /// Whether `pid` may not create a session: it does not lead one, and a
    /// process group with its id exists.
    pub open spec fn session_denied(self, pid: Pid) -> bool {
        self.session_of(pid) != pid && self.groups.contains_key(pid)
    }

    /// The registry after `pid` asked for a session of its own: unchanged if
    /// it leads one already or is denied one, else `pid` has left its group for
    /// a new group in a new session, both named after it.
    pub open spec fn session_created(self, pid: Pid) -> RegistryView {
        if self.session_of(pid) == pid || self.groups.contains_key(pid) {
            self
        } else {
            self.migrated(pid, pid, pid, true)
        }
    }

    /// The registry after `pid` asked for a group of its own: unchanged if it
    /// leads its group already, else `pid` has left its group for a new group
    /// named after it, in the session it was in.
    pub open spec fn group_created(self, pid: Pid) -> RegistryView {
        if self.processes[pid].group == pid {
            self
        } else {
            self.migrated(pid, pid, self.session_of(pid), false)
        }
    }

    /// Whether `pid` may not move to the group `target`: it would have to
    /// move, and it leads its session, or the group is in another session, or
    /// there is no such group and `target` is not the id of `pid`.
    pub open spec fn group_denied(self, pid: Pid, target: Pgid) -> bool {
        &&& target != self.processes[pid].group
        &&& {
            ||| self.session_of(pid) == pid
            ||| if self.groups.contains_key(target) {
                self.groups[target].session != self.session_of(pid)
            } else {
                target != pid
            }
        }
    }

    /// The registry after `pid` asked to move to the group `target`:
    /// unchanged if it is there already or is denied the move, else `pid` has
    /// left its group for `target`, which is created in its session if need be.
    pub open spec fn group_set(self, pid: Pid, target: Pgid) -> RegistryView {
        if target == self.processes[pid].group || self.group_denied(pid, target) {
            self
        } else {
            self.migrated(pid, target, self.session_of(pid), false)
        }
    }

    /// Whether `pid` belongs to the group `pgid` of the session `sid`.
    pub open spec fn is_member(self, pid: Pid, pgid: Pgid, sid: Sid) -> bool {
        self.processes[pid].group == pgid && self.session_of(pid) == sid
    }

    /// Whether `pid` may be in the group `pgid` of the session `sid` after
    /// asking to: it is a member, or `sid` is its session and no group of
    /// another session is registered under `pgid`.
    pub open spec fn move_admitted(self, pid: Pid, pgid: Pgid, sid: Sid) -> bool {
        ||| self.is_member(pid, pgid, sid)
        ||| {
            &&& sid == self.session_of(pid)
            &&& self.groups.contains_key(pgid) ==> self.groups[pgid].session == sid
        }
    }

    /// The registry after `pid` asked to move to the group `pgid` of the
    /// session `sid`: unchanged if it is a member already or is refused, else
    /// `pid` has left its group for that group, which is registered again if it
    /// had become empty.
    pub open spec fn moved(self, pid: Pid, pgid: Pgid, sid: Sid) -> RegistryView {
        if self.move_admitted(pid, pgid, sid) && !self.is_member(pid, pgid, sid) {
            self.migrated(pid, pgid, sid, false)
        } else {
            self
        }
    }

    /// The members of the group `pgid` of the session `sid`: none if no such
    /// group is registered.
    pub open spec fn members_of(self, pgid: Pgid, sid: Sid) -> Set<Pid> {
        if self.groups.contains_key(pgid) && self.groups[pgid].session == sid {
            self.groups[pgid].members
        } else {
            Set::empty()
        }
    }

    /// The groups of the session `sid`: none if no such session is registered.
    pub open spec fn groups_of(self, sid: Sid) -> Set<Pgid> {
        if self.sessions.contains_key(sid) {
            self.sessions[sid].groups
        } else {
            Set::empty()
        }
    }
}

/// One operation on a registry, with its arguments.
pub ghost enum Operation {
    /// A process `pid` is created, as a child of `parent` or as a root.
    Spawn { pid: Pid, parent: Option<Pid> },
    /// The process `pid` exits.
    Exit { pid: Pid },
    /// The zombie `pid` is freed.
    Free { pid: Pid },
    /// The process `pid` asks for a session of its own.
    CreateSession { pid: Pid },
    /// The process `pid` asks for a group of its own.
    CreateGroup { pid: Pid },
    /// The process `pid` asks to move to the group `target` of its session.
    SetGroup { pid: Pid, target: Pgid },
    /// The process `pid` asks to move to the group `pgid` of the session `sid`.
    MoveToGroup { pid: Pid, pgid: Pgid, sid: Sid },
    /// The thread `tid` joins the thread group of `pid`.
    NewThread { pid: Pid, tid: Pid },
    /// The thread `tid` of `pid` exits with `exit_code`.
    ThreadExit { pid: Pid, tid: Pid, exit_code: i32 },
    /// A group-wide exit is requested for `pid`.
    GroupExit { pid: Pid },
}

impl Operation {
    /// The process that the operation is asked of: for the creation of a
    /// process its parent, if it has one.
    pub open spec fn subject(self) -> Option<Pid> {
        match self {
            Operation::Spawn { pid, parent } => parent,
            Operation::Exit { pid } => Some(pid),
            Operation::Free { pid } => Some(pid),
            Operation::CreateSession { pid } => Some(pid),
            Operation::CreateGroup { pid } => Some(pid),
            Operation::SetGroup { pid, target } => Some(pid),
            Operation::MoveToGroup { pid, pgid, sid } => Some(pid),
            Operation::NewThread { pid, tid } => Some(pid),
            Operation::ThreadExit { pid, tid, exit_code } => Some(pid),
            Operation::GroupExit { pid } => Some(pid),
        }
    }
}

impl RegistryView {
    /// What an operation asks of the registry it is applied to: its subject
    /// is registered; a new process has an id that nothing carries; only a
    /// zombie is freed; and a process that asks for a group of its own leads
    /// the group with its id, if there is one.
    pub open spec fn permits(self, operation: Operation) -> bool {
        &&& operation.subject() is Some ==> self.processes.contains_key(operation.subject()->0)
        &&& match operation {
            Operation::Spawn { pid, parent } => self.is_unused(pid),
            Operation::Free { pid } => self.processes[pid].zombie,
            Operation::CreateGroup { pid } => self.processes[pid].group == pid
                || !self.groups.contains_key(pid),
            _ => true,
        }
    }

    /// The registry after an operation.
    pub open spec fn after(self, operation: Operation) -> RegistryView {
        match operation {
            Operation::Spawn { pid, parent } => self.spawned(pid, parent),
            Operation::Exit { pid } => self.exited(pid),
            Operation::Free { pid } => self.freed(pid),
            Operation::CreateSession { pid } => self.session_created(pid),
            Operation::CreateGroup { pid } => self.group_created(pid),
            Operation::SetGroup { pid, target } => self.group_set(pid, target),
            Operation::MoveToGroup { pid, pgid, sid } => self.moved(pid, pgid, sid),
            Operation::NewThread { pid, tid } => self.with_thread(pid, tid),
            Operation::ThreadExit { pid, tid, exit_code } => self.thread_exited(
                pid,
                tid,
                exit_code,
            ),
            Operation::GroupExit { pid } => self.group_exit_requested(pid),
        }
    }
}

} // verus!
