//! The registry: the three identifier-keyed tables and the identifier
//! allocator, with the elementary updates that the operations are built from.
use std::collections::BTreeSet;
use vstd::prelude::*;
use weak_map::StrongMap;

use crate::ids::{ascending, ascending_keys, lists_ascending};
use crate::model::{advanced, id_limit, GroupState, ProcessState, RegistryView, SessionState};
use crate::process::Process;
use crate::process_group::ProcessGroup;
use crate::session::Session;
use crate::{Pgid, Pid, Sid};

verus! {

struct ProcessEntry {
    parent: Option<Pid>,
    children: BTreeSet<Pid>,
    group: Pgid,
    zombie: bool,
    generation: Ghost<nat>,
    threads: BTreeSet<Pid>,
    exit_code: i32,
    group_exited: bool,
}

struct GroupEntry {
    session: Sid,
    members: BTreeSet<Pid>,
}

struct SessionEntry {
    groups: BTreeSet<Pgid>,
}

impl View for ProcessEntry {
    type V = ProcessState;

    closed spec fn view(&self) -> ProcessState {
        ProcessState {
            parent: self.parent,
            children: self.children@,
            group: self.group,
            zombie: self.zombie,
            generation: self.generation@,
            threads: self.threads@,
            exit_code: self.exit_code,
            group_exited: self.group_exited,
        }
    }
}

impl View for GroupEntry {
    type V = GroupState;

    closed spec fn view(&self) -> GroupState {
        GroupState { session: self.session, members: self.members@ }
    }
}

impl View for SessionEntry {
    type V = SessionState;

    closed spec fn view(&self) -> SessionState {
        SessionState { groups: self.groups@ }
    }
}

/// The process, process-group and session tables of one kernel, together
/// with the allocator of process ids and the payload attached to each process.
pub struct Registry<D> {
    processes: StrongMap<Pid, ProcessEntry>,
    groups: StrongMap<Pgid, GroupEntry>,
    sessions: StrongMap<Sid, SessionEntry>,
    payloads: StrongMap<Pid, D>,
    next_pid: u64,
}

impl<D> View for Registry<D> {
    type V = RegistryView;

    closed spec fn view(&self) -> RegistryView {
        RegistryView {
            processes: Map::new(
                |p: Pid| self.processes@.contains_key(p),
                |p: Pid| self.processes@[p]@,
            ),
            groups: Map::new(|g: Pgid| self.groups@.contains_key(g), |g: Pgid| self.groups@[g]@),
            sessions: Map::new(
                |s: Sid| self.sessions@.contains_key(s),
                |s: Sid| self.sessions@[s]@,
            ),
            next_pid: self.next_pid as nat,
        }
    }
}

impl<D> Registry<D> {
    /// The payload attached to each process that has one.
    pub closed spec fn payloads(&self) -> Map<Pid, D> {
        self.payloads@
    }

    /// The invariant of the registry: the invariant of its model, and only
    /// registered processes carry a payload.
    pub open spec fn wf(&self) -> bool {
        &&& self@.wf()
        &&& forall|p: Pid| #[trigger]
            self.payloads().contains_key(p) ==> self@.processes.contains_key(p)
    }

    /// An empty registry.
    pub fn new() -> (registry: Self)
        ensures
            registry.wf(),
            registry@ == RegistryView::empty(),
            registry.payloads() == Map::<Pid, D>::empty(),
    {
        let registry = Registry {
            processes: StrongMap::new(),
            groups: StrongMap::new(),
            sessions: StrongMap::new(),
            payloads: StrongMap::new(),
            next_pid: 1,
        };
        assert(registry@.processes =~= Map::empty());
        assert(registry@.groups =~= Map::empty());
        assert(registry@.sessions =~= Map::empty());
        registry
    }

    /// The process registered under `pid`, if there is one.
    pub fn process(&self, pid: Pid) -> (found: Option<Process>)
        ensures
            found == if self@.processes.contains_key(pid) {
                Some(Process { pid })
            } else {
                None
            },
    {
        if self.processes.contains_key(&pid) {
            Some(Process { pid })
        } else {
            None
        }
    }

    /// The process group registered under `pgid`, if there is one.
    pub fn group(&self, pgid: Pgid) -> (found: Option<ProcessGroup>)
        ensures
            found == if self@.groups.contains_key(pgid) {
                Some(ProcessGroup { pgid, sid: self@.groups[pgid].session })
            } else {
                None
            },
    {
        match self.groups.get(&pgid) {
            Some(entry) => Some(ProcessGroup { pgid, sid: entry.session }),
            None => None,
        }
    }

    /// The session registered under `sid`, if there is one.
    pub fn session(&self, sid: Sid) -> (found: Option<Session>)
        ensures
            found == if self@.sessions.contains_key(sid) {
                Some(Session { sid })
            } else {
                None
            },
    {
        if self.sessions.contains_key(&sid) {
            Some(Session { sid })
        } else {
            None
        }
    }

    /// Whether no process, process group or session carries `id`.
    pub fn is_unused(&self, id: u32) -> (unused: bool)
        ensures
            unused == self@.is_unused(id),
    {
        !self.processes.contains_key(&id) && !self.groups.contains_key(&id)
            && !self.sessions.contains_key(&id)
    }

    /// The id that the allocator issues next, unless all ids are spent.
    pub fn next_pid(&self) -> (next: Option<Pid>)
        ensures
            next == if self@.next_pid < id_limit() {
                Some(self@.next_pid as Pid)
            } else {
                None
            },
    {
        if self.next_pid <= 0xffff_ffff {
            Some(self.next_pid as u32)
        } else {
            None
        }
    }
}

/// The elementary reads.
impl<D> Registry<D> {
    /// Whether a process is registered under `pid`.
    pub(crate) fn has_process(&self, pid: Pid) -> (found: bool)
        ensures
            found == self@.processes.contains_key(pid),
    {
        self.processes.contains_key(&pid)
    }

    /// Whether a process group is registered under `pgid`.
    pub(crate) fn has_group(&self, pgid: Pgid) -> (found: bool)
        ensures
            found == self@.groups.contains_key(pgid),
    {
        self.groups.contains_key(&pgid)
    }

    /// Whether a session is registered under `sid`.
    pub(crate) fn has_session(&self, sid: Sid) -> (found: bool)
        ensures
            found == self@.sessions.contains_key(sid),
    {
        self.sessions.contains_key(&sid)
    }

    /// The parent that `pid` names.
    pub(crate) fn parent_of(&self, pid: Pid) -> (parent: Option<Pid>)
        requires
            self@.processes.contains_key(pid),
        ensures
            parent == self@.processes[pid].parent,
    {
        self.processes.get(&pid).unwrap().parent
    }

    /// The id of the group that `pid` belongs to.
    pub(crate) fn group_of(&self, pid: Pid) -> (pgid: Pgid)
        requires
            self@.processes.contains_key(pid),
        ensures
            pgid == self@.processes[pid].group,
    {
        self.processes.get(&pid).unwrap().group
    }

    /// Whether `pid` has exited.
    pub(crate) fn zombie_of(&self, pid: Pid) -> (zombie: bool)
        requires
            self@.processes.contains_key(pid),
        ensures
            zombie == self@.processes[pid].zombie,
    {
        self.processes.get(&pid).unwrap().zombie
    }

    /// The exit code recorded for `pid`.
    pub(crate) fn exit_code_of(&self, pid: Pid) -> (exit_code: i32)
        requires
            self@.processes.contains_key(pid),
        ensures
            exit_code == self@.processes[pid].exit_code,
    {
        self.processes.get(&pid).unwrap().exit_code
    }

    /// Whether a group-wide exit was requested for `pid`.
    pub(crate) fn group_exited_of(&self, pid: Pid) -> (group_exited: bool)
        requires
            self@.processes.contains_key(pid),
        ensures
            group_exited == self@.processes[pid].group_exited,
    {
        self.processes.get(&pid).unwrap().group_exited
    }

    /// The children of `pid`, in ascending order.
    pub(crate) fn children_of(&self, pid: Pid) -> (children: Vec<Pid>)
        requires
            self@.processes.contains_key(pid),
        ensures
            lists_ascending(children@, self@.processes[pid].children),
    {
        ascending(&self.processes.get(&pid).unwrap().children)
    }

    /// The id of the session that the group `pgid` belongs to.
    pub(crate) fn session_of_group(&self, pgid: Pgid) -> (sid: Sid)
        requires
            self@.groups.contains_key(pgid),
        ensures
            sid == self@.groups[pgid].session,
    {
        self.groups.get(&pgid).unwrap().session
    }

    /// The members of the group `pgid`, in ascending order.
    pub(crate) fn members_of(&self, pgid: Pgid) -> (members: Vec<Pid>)
        requires
            self@.groups.contains_key(pgid),
        ensures
            lists_ascending(members@, self@.groups[pgid].members),
    {
        ascending(&self.groups.get(&pgid).unwrap().members)
    }

    /// The groups of the session `sid`, in ascending order.
    pub(crate) fn groups_of(&self, sid: Sid) -> (groups: Vec<Pgid>)
        requires
            self@.sessions.contains_key(sid),
        ensures
            lists_ascending(groups@, self@.sessions[sid].groups),
    {
        ascending(&self.sessions.get(&sid).unwrap().groups)
    }

    /// The ids of all registered processes, in ascending order.
    pub(crate) fn process_ids(&self) -> (pids: Vec<Pid>)
        ensures
            lists_ascending(pids@, self@.processes.dom()),
    {
        let pids = ascending_keys(&self.processes);
        assert(self@.processes.dom() =~= self.processes@.dom());
        pids
    }

    /// The ids of all registered process groups, in ascending order.
    pub(crate) fn group_ids(&self) -> (pgids: Vec<Pgid>)
        ensures
            lists_ascending(pgids@, self@.groups.dom()),
    {
        let pgids = ascending_keys(&self.groups);
        assert(self@.groups.dom() =~= self.groups@.dom());
        pgids
    }

    /// The ids of all registered sessions, in ascending order.
    pub(crate) fn session_ids(&self) -> (sids: Vec<Sid>)
        ensures
            lists_ascending(sids@, self@.sessions.dom()),
    {
        let sids = ascending_keys(&self.sessions);
        assert(self@.sessions.dom() =~= self.sessions@.dom());
        sids
    }

    /// The payload attached to `pid`, if there is one.
    pub(crate) fn payload_of(&self, pid: Pid) -> (payload: Option<&D>)
        ensures
            payload == if self.payloads().contains_key(pid) {
                Some(&self.payloads()[pid])
            } else {
                None
            },
    {
        self.payloads.get(&pid)
    }
}

/// The elementary updates.  Each changes one entry of one table, and says so
/// as an equation between the model before and after.
impl<D> Registry<D> {
    /// Registers the process `pid`, newly created, and moves the allocator
    /// beyond its id.
    pub(crate) fn put_process(
        &mut self,
        pid: Pid,
        parent: Option<Pid>,
        group: Pgid,
        generation: Ghost<nat>,
    )
        ensures
            final(self)@ == (RegistryView {
                processes: old(self)@.processes.insert(
                    pid,
                    ProcessState::fresh(parent, group, generation@),
                ),
                next_pid: advanced(old(self)@.next_pid, pid),
                ..old(self)@
            }),
            final(self).payloads() == old(self).payloads(),
    {
        let entry = ProcessEntry {
            parent,
            children: BTreeSet::new(),
            group,
            zombie: false,
            generation,
            threads: BTreeSet::new(),
            exit_code: 0,
            group_exited: false,
        };
        self.processes.insert(pid, entry);
        if self.next_pid <= pid as u64 {
            self.next_pid = pid as u64 + 1;
        }
        assert(self@.processes =~= old(self)@.processes.insert(
            pid,
            ProcessState::fresh(parent, group, generation@),
        ));
    }

    /// Removes the process `pid` from the table, and its payload with it.
    pub(crate) fn drop_process(&mut self, pid: Pid)
        ensures
            final(self)@ == (RegistryView {
                processes: old(self)@.processes.remove(pid),
                ..old(self)@
            }),
            final(self).payloads() == old(self).payloads().remove(pid),
    {
        self.processes.remove(&pid);
        self.payloads.remove(&pid);
        assert(self@.processes =~= old(self)@.processes.remove(pid));
    }

    /// Attaches `payload` to `pid`.
    pub(crate) fn put_payload(&mut self, pid: Pid, payload: D)
        ensures
            final(self)@ == old(self)@,
            final(self).payloads() == old(self).payloads().insert(pid, payload),
    {
        self.payloads.insert(pid, payload);
    }

    /// Makes `parent` the parent that `pid` names.
    pub(crate) fn set_parent(&mut self, pid: Pid, parent: Option<Pid>)
        requires
            old(self)@.processes.contains_key(pid),
        ensures
            final(self)@ == (RegistryView {
                processes: old(self)@.processes.insert(
                    pid,
                    ProcessState { parent, ..old(self)@.processes[pid] },
                ),
                ..old(self)@
            }),
            final(self).payloads() == old(self).payloads(),
    {
        let mut entry = self.processes.remove(&pid).unwrap();
        entry.parent = parent;
        self.processes.insert(pid, entry);
        assert(self@.processes =~= old(self)@.processes.insert(
            pid,
            ProcessState { parent, ..old(self)@.processes[pid] },
        ));
    }

    /// Records that `pid` belongs to the group `group`.
    pub(crate) fn set_group(&mut self, pid: Pid, group: Pgid)
        requires
            old(self)@.processes.contains_key(pid),
        ensures
            final(self)@ == (RegistryView {
                processes: old(self)@.processes.insert(
                    pid,
                    ProcessState { group, ..old(self)@.processes[pid] },
                ),
                ..old(self)@
            }),
            final(self).payloads() == old(self).payloads(),
    {
        let mut entry = self.processes.remove(&pid).unwrap();
        entry.group = group;
        self.processes.insert(pid, entry);
        assert(self@.processes =~= old(self)@.processes.insert(
            pid,
            ProcessState { group, ..old(self)@.processes[pid] },
        ));
    }

    /// Lists `child` among the children of `pid`.
    pub(crate) fn add_child(&mut self, pid: Pid, child: Pid)
        requires
            old(self)@.processes.contains_key(pid),
        ensures
            final(self)@ == (RegistryView {
                processes: old(self)@.processes.insert(
                    pid,
                    ProcessState {
                        children: old(self)@.processes[pid].children.insert(child),
                        ..old(self)@.processes[pid]
                    },
                ),
                ..old(self)@
            }),
            final(self).payloads() == old(self).payloads(),
    {
        let mut entry = self.processes.remove(&pid).unwrap();
        entry.children.insert(child);
        self.processes.insert(pid, entry);
        assert(self@.processes =~= old(self)@.processes.insert(
            pid,
            ProcessState {
                children: old(self)@.processes[pid].children.insert(child),
                ..old(self)@.processes[pid]
            },
        ));
    }

    /// Removes `child` from the children of `pid`.
    pub(crate) fn remove_child(&mut self, pid: Pid, child: Pid)
        requires
            old(self)@.processes.contains_key(pid),
        ensures
            final(self)@ == (RegistryView {
                processes: old(self)@.processes.insert(
                    pid,
                    ProcessState {
                        children: old(self)@.processes[pid].children.remove(child),
                        ..old(self)@.processes[pid]
                    },
                ),
                ..old(self)@
            }),
            final(self).payloads() == old(self).payloads(),
    {
        let mut entry = self.processes.remove(&pid).unwrap();
        entry.children.remove(&child);
        self.processes.insert(pid, entry);
        assert(self@.processes =~= old(self)@.processes.insert(
            pid,
            ProcessState {
                children: old(self)@.processes[pid].children.remove(child),
                ..old(self)@.processes[pid]
            },
        ));
    }

    /// Marks `pid` as a zombie and takes its children from it.
    pub(crate) fn retire(&mut self, pid: Pid)
        requires
            old(self)@.processes.contains_key(pid),
        ensures
            final(self)@ == (RegistryView {
                processes: old(self)@.processes.insert(
                    pid,
                    ProcessState {
                        zombie: true,
                        children: Set::empty(),
                        ..old(self)@.processes[pid]
                    },
                ),
                ..old(self)@
            }),
            final(self).payloads() == old(self).payloads(),
    {
        let mut entry = self.processes.remove(&pid).unwrap();
        entry.zombie = true;
        entry.children.clear();
        self.processes.insert(pid, entry);
        assert(self@.processes =~= old(self)@.processes.insert(
            pid,
            ProcessState { zombie: true, children: Set::empty(), ..old(self)@.processes[pid] },
        ));
    }

    /// Adds the thread `tid` to the thread group of `pid`.
    pub(crate) fn add_thread(&mut self, pid: Pid, tid: Pid)
        requires
            old(self)@.processes.contains_key(pid),
        ensures
            final(self)@ == old(self)@.with_thread(pid, tid),
            final(self).payloads() == old(self).payloads(),
    {
        let mut entry = self.processes.remove(&pid).unwrap();
        entry.threads.insert(tid);
        self.processes.insert(pid, entry);
        assert(self@.processes =~= old(self)@.with_thread(pid, tid).processes);
    }

    /// Removes the thread `tid` from the thread group of `pid` and records
    /// `exit_code` unless the code is frozen; says whether no thread is left.
    pub(crate) fn remove_thread(&mut self, pid: Pid, tid: Pid, exit_code: i32) -> (last: bool)
        requires
            old(self)@.processes.contains_key(pid),
        ensures
            final(self)@ == old(self)@.thread_exited(pid, tid, exit_code),
            last == final(self)@.processes[pid].threads.is_empty(),
            final(self).payloads() == old(self).payloads(),
    {
        let mut entry = self.processes.remove(&pid).unwrap();
        if !entry.group_exited {
            entry.exit_code = exit_code;
        }
        entry.threads.remove(&tid);
        let last = entry.threads.is_empty();
        self.processes.insert(pid, entry);
        assert(self@.processes =~= old(self)@.thread_exited(pid, tid, exit_code).processes);
        last
    }

    /// Records that a group-wide exit was requested for `pid`.
    pub(crate) fn set_group_exited(&mut self, pid: Pid)
        requires
            old(self)@.processes.contains_key(pid),
        ensures
            final(self)@ == old(self)@.group_exit_requested(pid),
            final(self).payloads() == old(self).payloads(),
    {
        let mut entry = self.processes.remove(&pid).unwrap();
        entry.group_exited = true;
        self.processes.insert(pid, entry);
        assert(self@.processes =~= old(self)@.group_exit_requested(pid).processes);
    }

    /// Registers the group `pgid` of the session `sid` with the one member
    /// `pid`.
    pub(crate) fn put_group(&mut self, pgid: Pgid, sid: Sid, pid: Pid)
        ensures
            final(self)@ == (RegistryView {
                groups: old(self)@.groups.insert(
                    pgid,
                    GroupState { session: sid, members: Set::empty().insert(pid) },
                ),
                next_pid: advanced(old(self)@.next_pid, pgid),
                ..old(self)@
            }),
            final(self).payloads() == old(self).payloads(),
    {
        let mut members: BTreeSet<Pid> = BTreeSet::new();
        members.insert(pid);
        self.groups.insert(pgid, GroupEntry { session: sid, members });
        if self.next_pid <= pgid as u64 {
            self.next_pid = pgid as u64 + 1;
        }
        assert(self@.groups =~= old(self)@.groups.insert(
            pgid,
            GroupState { session: sid, members: Set::empty().insert(pid) },
        ));
    }

    /// Lists `pid` among the members of the group `pgid`.
    pub(crate) fn add_member(&mut self, pgid: Pgid, pid: Pid)
        requires
            old(self)@.groups.contains_key(pgid),
        ensures
            final(self)@ == (RegistryView {
                groups: old(self)@.groups.insert(
                    pgid,
                    GroupState {
                        members: old(self)@.groups[pgid].members.insert(pid),
                        ..old(self)@.groups[pgid]
                    },
                ),
                ..old(self)@
            }),
            final(self).payloads() == old(self).payloads(),
    {
        let mut entry = self.groups.remove(&pgid).unwrap();
        entry.members.insert(pid);
        self.groups.insert(pgid, entry);
        assert(self@.groups =~= old(self)@.groups.insert(
            pgid,
            GroupState {
                members: old(self)@.groups[pgid].members.insert(pid),
                ..old(self)@.groups[pgid]
            },
        ));
    }

    /// Removes `pid` from the group `pgid`, and the group from the table if
    /// it is empty then; says whether it was.
    pub(crate) fn remove_member(&mut self, pgid: Pgid, pid: Pid) -> (emptied: bool)
        requires
            old(self)@.groups.contains_key(pgid),
        ensures
            emptied == old(self)@.groups[pgid].members.remove(pid).is_empty(),
            final(self)@ == (RegistryView {
                groups: if emptied {
                    old(self)@.groups.remove(pgid)
                } else {
                    old(self)@.groups.insert(
                        pgid,
                        GroupState {
                            members: old(self)@.groups[pgid].members.remove(pid),
                            ..old(self)@.groups[pgid]
                        },
                    )
                },
                ..old(self)@
            }),
            final(self).payloads() == old(self).payloads(),
    {
        let mut entry = self.groups.remove(&pgid).unwrap();
        entry.members.remove(&pid);
        if entry.members.is_empty() {
            assert(self@.groups =~= old(self)@.groups.remove(pgid));
            true
        } else {
            self.groups.insert(pgid, entry);
            assert(self@.groups =~= old(self)@.groups.insert(
                pgid,
                GroupState {
                    members: old(self)@.groups[pgid].members.remove(pid),
                    ..old(self)@.groups[pgid]
                },
            ));
            false
        }
    }

    /// Lists the group `pgid` in the session `sid`, which is registered if it
    /// is not yet.
    pub(crate) fn add_session_group(&mut self, sid: Sid, pgid: Pgid)
        ensures
            final(self)@ == (RegistryView {
                sessions: if old(self)@.sessions.contains_key(sid) {
                    old(self)@.sessions.insert(
                        sid,
                        SessionState { groups: old(self)@.sessions[sid].groups.insert(pgid) },
                    )
                } else {
                    old(self)@.sessions.insert(
                        sid,
                        SessionState { groups: Set::empty().insert(pgid) },
                    )
                },
                ..old(self)@
            }),
            final(self).payloads() == old(self).payloads(),
    {
        let mut entry = match self.sessions.remove(&sid) {
            Some(entry) => entry,
            None => SessionEntry { groups: BTreeSet::new() },
        };
        entry.groups.insert(pgid);
        self.sessions.insert(sid, entry);
        proof {
            if old(self)@.sessions.contains_key(sid) {
                assert(self@.sessions =~= old(self)@.sessions.insert(
                    sid,
                    SessionState { groups: old(self)@.sessions[sid].groups.insert(pgid) },
                ));
            } else {
                assert(self@.sessions =~= old(self)@.sessions.insert(
                    sid,
                    SessionState { groups: Set::empty().insert(pgid) },
                ));
            }
        }
    }

    /// Removes the group `pgid` from the list of the session `sid`, and the
    /// session from the table if it is empty then and `drop_session` is set.
    pub(crate) fn remove_session_group(&mut self, sid: Sid, pgid: Pgid, drop_session: bool)
        requires
            old(self)@.sessions.contains_key(sid),
        ensures
            final(self)@ == (RegistryView {
                sessions: if drop_session && old(self)@.sessions[sid].groups.remove(
                    pgid,
                ).is_empty() {
                    old(self)@.sessions.remove(sid)
                } else {
                    old(self)@.sessions.insert(
                        sid,
                        SessionState { groups: old(self)@.sessions[sid].groups.remove(pgid) },
                    )
                },
                ..old(self)@
            }),
            final(self).payloads() == old(self).payloads(),
    {
        let mut entry = self.sessions.remove(&sid).unwrap();
        entry.groups.remove(&pgid);
        if drop_session && entry.groups.is_empty() {
            assert(self@.sessions =~= old(self)@.sessions.remove(sid));
        } else {
            self.sessions.insert(sid, entry);
            assert(self@.sessions =~= old(self)@.sessions.insert(
                sid,
                SessionState { groups: old(self)@.sessions[sid].groups.remove(pgid) },
            ));
        }
    }
}

} // verus!
