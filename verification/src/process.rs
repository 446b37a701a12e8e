//! Processes: creation, the process tree, group and session membership,
//! exit and reaping.
use vstd::prelude::*;

use crate::error::ProcessError;
use crate::ids::lists_ascending;
use crate::model::{id_limit, RegistryView};
use crate::preservation::{
    lemma_exited_wf, lemma_freed_wf, lemma_handed_over_none, lemma_handed_over_one,
    lemma_migrated_wf, lemma_released_all, lemma_released_none, lemma_released_one, lemma_root_of,
    lemma_spawned_wf, lemma_thread_group_wf, may_migrate,
};
use crate::process_group::ProcessGroup;
use crate::registry::Registry;
use crate::session::Session;
use crate::thread::Thread;
use crate::{Pgid, Pid, Sid};

verus! {

/// A handle to a process: the process is looked up in a registry by its id.
#[derive(Clone, Copy, PartialEq, Eq, Structural, Debug)]
pub struct Process {
    /// The process id.
    pub pid: Pid,
}

/// Registers the process `pid`, as a child of `parent` or as a root.
fn spawn<D>(registry: &mut Registry<D>, pid: Pid, parent: Option<Pid>)
    requires
        old(registry).wf(),
        old(registry)@.is_unused(pid),
        parent is Some ==> old(registry)@.processes.contains_key(parent->0),
    ensures
        final(registry).wf(),
        final(registry)@ == old(registry)@.spawned(pid, parent),
        final(registry).payloads() == old(registry).payloads(),
{
    proof {
        lemma_spawned_wf(registry@, pid, parent);
    }
    match parent {
        Some(above) => {
            let group = registry.group_of(above);
            let ghost generation = registry@.processes[above].generation + 1;
            registry.put_process(pid, parent, group, Ghost(generation));
            registry.add_child(above, pid);
            registry.add_member(group, pid);
            assert(registry@.processes =~= old(registry)@.spawned(pid, parent).processes);
        },
        None => {
            registry.put_process(pid, None, pid, Ghost(0));
            registry.put_group(pid, pid, pid);
            registry.add_session_group(pid, pid);
        },
    }
}

/// Creation.
impl Process {
    /// Creates a root process under the next id of the allocator: it has no
    /// parent, and leads a new process group and a new session.
    pub fn new_init<D>(registry: &mut Registry<D>) -> (init: Process)
        requires
            old(registry).wf(),
            old(registry)@.next_pid < id_limit(),
        ensures
            init.pid == old(registry)@.next_pid,
            final(registry).wf(),
            final(registry)@ == old(registry)@.spawned(init.pid, None),
            final(registry).payloads() == old(registry).payloads(),
    {
        let pid = registry.next_pid().unwrap();
        spawn(registry, pid, None);
        Process { pid }
    }

    /// Creates a child of this process under the next id of the allocator.
    /// The child belongs to the group that this process is in now.
    pub fn fork<D>(&self, registry: &mut Registry<D>) -> (child: Process)
        requires
            old(registry).wf(),
            old(registry)@.processes.contains_key(self.pid),
            old(registry)@.next_pid < id_limit(),
        ensures
            child.pid == old(registry)@.next_pid,
            final(registry).wf(),
            final(registry)@ == old(registry)@.spawned(child.pid, Some(self.pid)),
            final(registry).payloads() == old(registry).payloads(),
    {
        let pid = registry.next_pid().unwrap();
        spawn(registry, pid, Some(self.pid));
        Process { pid }
    }

    /// Creates a child of this process under the id `pid`, which nothing may
    /// carry yet.  The child belongs to the group that this process is in now.
    pub fn new_child<D>(&self, registry: &mut Registry<D>, pid: Pid) -> (child: Process)
        requires
            old(registry).wf(),
            old(registry)@.processes.contains_key(self.pid),
            old(registry)@.is_unused(pid),
        ensures
            child.pid == pid,
            final(registry).wf(),
            final(registry)@ == old(registry)@.spawned(pid, Some(self.pid)),
            final(registry).payloads() == old(registry).payloads(),
    {
        spawn(registry, pid, Some(self.pid));
        Process { pid }
    }
}

/// A builder for creating a new [`Process`].
pub struct ProcessBuilder<D> {
    pid: Pid,
    parent: Option<Process>,
    data: Option<D>,
}

impl<D> ProcessBuilder<D> {
    /// The id that the process will have.
    pub closed spec fn pid(&self) -> Pid {
        self.pid
    }

    /// The parent that the process will have; a root process has none.
    pub closed spec fn parent_set(&self) -> Option<Process> {
        self.parent
    }

    /// The data that the process will carry, if any.
    pub closed spec fn data_set(&self) -> Option<D> {
        self.data
    }

    /// Creates a new [`ProcessBuilder`] with the specified [`Process`] id,
    /// for a root process without data.
    pub fn new(pid: Pid) -> (builder: Self)
        ensures
            builder.pid() == pid,
            builder.parent_set() is None,
            builder.data_set() is None,
    {
        Self { pid, parent: None, data: None }
    }

    /// Sets the parent [`Process`].
    pub fn parent(self, parent: Process) -> (builder: Self)
        ensures
            builder.pid() == self.pid(),
            builder.parent_set() == Some(parent),
            builder.data_set() == self.data_set(),
    {
        Self { pid: self.pid, parent: Some(parent), data: self.data }
    }

    /// Sets the data associated with the [`Process`].
    pub fn data(self, data: D) -> (builder: Self)
        ensures
            builder.pid() == self.pid(),
            builder.parent_set() == self.parent_set(),
            builder.data_set() == Some(data),
    {
        Self { pid: self.pid, parent: self.parent, data: Some(data) }
    }

    /// Finishes the builder and registers the new [`Process`]: a child of the
    /// parent that was set, in the parent's group; or, if none was set, a root
    /// that leads a new group and session.  Nothing may carry its id yet.
    pub fn build(self, registry: &mut Registry<D>) -> (process: Process)
        requires
            old(registry).wf(),
            old(registry)@.is_unused(self.pid()),
            self.parent_set() is Some ==> old(registry)@.processes.contains_key(
                self.parent_set()->0.pid,
            ),
        ensures
            process.pid == self.pid(),
            final(registry).wf(),
            final(registry)@ == old(registry)@.spawned(
                self.pid(),
                match self.parent_set() {
                    Some(parent) => Some(parent.pid),
                    None => None,
                },
            ),
            final(registry).payloads() == match self.data_set() {
                Some(data) => old(registry).payloads().insert(self.pid(), data),
                None => old(registry).payloads(),
            },
    {
        let pid = self.pid;
        let parent = match self.parent {
            Some(parent) => Some(parent.pid),
            None => None,
        };
        spawn(registry, pid, parent);
        match self.data {
            Some(data) => {
                registry.put_payload(pid, data);
            },
            None => {},
        }
        Process { pid }
    }
}

/// Identity and payload.
impl Process {
    /// The [`Process`] id.
    pub fn pid(&self) -> (pid: Pid)
        ensures
            pid == self.pid,
    {
        self.pid
    }

    /// The data associated with the [`Process`], if it was given any.
    pub fn data<'a, D>(&self, registry: &'a Registry<D>) -> (data: Option<&'a D>)
        ensures
            data == if registry.payloads().contains_key(self.pid) {
                Some(&registry.payloads()[self.pid])
            } else {
                None
            },
    {
        registry.payload_of(self.pid)
    }
}

/// The ids of the processes in `processes`, in the same order.
pub open spec fn pids_of(processes: Seq<Process>) -> Seq<Pid> {
    processes.map_values(|process: Process| process.pid)
}

/// The handles of the processes `pids`, in the same order.
pub(crate) fn handles(pids: &Vec<Pid>) -> (processes: Vec<Process>)
    ensures
        pids_of(processes@) == pids@,
{
    let mut processes: Vec<Process> = Vec::new();
    let mut i: usize = 0;
    while i < pids.len()
        invariant
            i <= pids.len(),
            processes@.len() == i,
            forall|k: int| 0 <= k < i ==> (#[trigger] processes@[k]).pid == pids@[k],
        decreases pids.len() - i,
    {
        processes.push(Process { pid: pids[i] });
        i += 1;
    }
    assert(pids_of(processes@) =~= pids@);
    processes
}

/// The topmost ancestor of `pid`.
fn topmost<D>(registry: &Registry<D>, pid: Pid) -> (top: Pid)
    requires
        registry.wf(),
        registry@.processes.contains_key(pid),
    ensures
        top == registry@.root_of(pid),
{
    let mut current = pid;
    loop
        invariant
            registry.wf(),
            registry@.processes.contains_key(current),
            registry@.root_of(current) == registry@.root_of(pid),
        decreases registry@.processes[current].generation,
    {
        proof {
            lemma_root_of(registry@, current);
        }
        match registry.parent_of(current) {
            Some(above) => {
                current = above;
            },
            None => {
                return current;
            },
        }
    }
}

/// Parent & children.
impl Process {
    /// The parent [`Process`]: none for a root, and none once the parent was
    /// freed.
    pub fn parent<D>(&self, registry: &Registry<D>) -> (parent: Option<Process>)
        requires
            registry@.processes.contains_key(self.pid),
        ensures
            parent == match registry@.processes[self.pid].parent {
                Some(above) => Some(Process { pid: above }),
                None => None,
            },
    {
        match registry.parent_of(self.pid) {
            Some(above) => Some(Process { pid: above }),
            None => None,
        }
    }

    /// The child [`Process`]es, in ascending order of their ids.
    pub fn children<D>(&self, registry: &Registry<D>) -> (children: Vec<Process>)
        requires
            registry@.processes.contains_key(self.pid),
        ensures
            lists_ascending(pids_of(children@), registry@.processes[self.pid].children),
    {
        let pids = registry.children_of(self.pid);
        handles(&pids)
    }
}

/// Status & exit.
impl Process {
    /// The exit code of the [`Process`]: 0 until a thread has exited.
    pub fn exit_code<D>(&self, registry: &Registry<D>) -> (exit_code: i32)
        requires
            registry@.processes.contains_key(self.pid),
        ensures
            exit_code == registry@.processes[self.pid].exit_code,
    {
        registry.exit_code_of(self.pid)
    }

    /// Returns `true` if the [`Process`] is group exited.
    pub fn is_group_exited<D>(&self, registry: &Registry<D>) -> (group_exited: bool)
        requires
            registry@.processes.contains_key(self.pid),
        ensures
            group_exited == registry@.processes[self.pid].group_exited,
    {
        registry.group_exited_of(self.pid)
    }

    /// Marks the [`Process`] as group exited: the exit code that is recorded
    /// now stays.
    pub fn group_exit<D>(&self, registry: &mut Registry<D>)
        requires
            old(registry).wf(),
            old(registry)@.processes.contains_key(self.pid),
        ensures
            final(registry).wf(),
            final(registry)@ == old(registry)@.group_exit_requested(self.pid),
            final(registry).payloads() == old(registry).payloads(),
    {
        proof {
            lemma_thread_group_wf(registry@, self.pid, 0, 0);
        }
        registry.set_group_exited(self.pid);
    }

    /// Returns `true` if the [`Process`] is a zombie process.
    pub fn is_zombie<D>(&self, registry: &Registry<D>) -> (zombie: bool)
        requires
            registry@.processes.contains_key(self.pid),
        ensures
            zombie == registry@.processes[self.pid].zombie,
    {
        registry.zombie_of(self.pid)
    }

    /// Terminates the [`Process`], marking it as a zombie process.
    ///
    /// Its children are inherited by its topmost ancestor.  A root has no
    /// ancestor: its children are let go of, and still name it as parent.
    /// The process stays in its group until it is freed.
    pub fn exit<D>(&self, registry: &mut Registry<D>)
        requires
            old(registry).wf(),
            old(registry)@.processes.contains_key(self.pid),
        ensures
            final(registry).wf(),
            final(registry)@ == old(registry)@.exited(self.pid),
            final(registry).payloads() == old(registry).payloads(),
    {
        let pid = self.pid;
        proof {
            lemma_exited_wf(registry@, pid);
            lemma_root_of(registry@, pid);
        }
        if registry.parent_of(pid).is_none() {
            registry.retire(pid);
            return ;
        }
        let top = topmost(registry, pid);
        let children = registry.children_of(pid);
        registry.retire(pid);
        let ghost before = old(registry)@;
        let ghost mut moved: Set<Pid> = Set::empty();
        proof {
            lemma_handed_over_none(before, pid, top);
        }
        let mut i: usize = 0;
        while i < children.len()
            invariant
                i <= children.len(),
                before.wf(),
                before.processes.contains_key(pid),
                before.processes[pid].parent is Some,
                top == before.root_of(pid),
                lists_ascending(children@, before.processes[pid].children),
                forall|k: int| 0 <= k < i ==> moved.contains(#[trigger] children@[k]),
                forall|x: Pid| moved.contains(x) ==> before.processes[pid].children.contains(x),
                registry@ == before.handed_over(pid, top, moved),
                registry.payloads() == old(registry).payloads(),
            decreases children.len() - i,
        {
            let child = children[i];
            assert(children@.contains(child));
            proof {
                lemma_handed_over_one(before, pid, top, moved, child);
                moved = moved.insert(child);
            }
            registry.set_parent(child, Some(top));
            registry.add_child(top, child);
            i += 1;
        }
        assert(moved =~= before.processes[pid].children) by {
            assert forall|x: Pid| before.processes[pid].children.contains(x) implies moved.contains(
                x,
            ) by {
                assert(children@.contains(x));
                let k = choose|k: int| 0 <= k < children@.len() && children@[k] == x;
                assert(moved.contains(children@[k]));
            }
        }
    }
}

/// Removes `pid` from its group.  A group that becomes empty is deregistered
/// and leaves its session; a session that becomes empty is deregistered if
/// `drop_session` is set.  The process belongs to no registered group until it
/// joins one.
fn unlink<D>(registry: &mut Registry<D>, pid: Pid, drop_session: bool)
    requires
        old(registry)@.processes.contains_key(pid),
        old(registry)@.groups.contains_key(old(registry)@.processes[pid].group),
        old(registry)@.sessions.contains_key(old(registry)@.session_of(pid)),
    ensures
        final(registry)@ == old(registry)@.unlinked(pid, drop_session),
        final(registry).payloads() == old(registry).payloads(),
{
    let pgid = registry.group_of(pid);
    let sid = registry.session_of_group(pgid);
    if registry.remove_member(pgid, pid) {
        registry.remove_session_group(sid, pgid, drop_session);
    }
}

/// Adds `pid` to the group `pgid`, which is registered in the session `sid`
/// if it is not registered yet.
fn join<D>(registry: &mut Registry<D>, pid: Pid, pgid: Pgid, sid: Sid)
    requires
        old(registry)@.processes.contains_key(pid),
    ensures
        final(registry)@ == old(registry)@.joined(pid, pgid, sid),
        final(registry).payloads() == old(registry).payloads(),
{
    registry.set_group(pid, pgid);
    if registry.has_group(pgid) {
        registry.add_member(pgid, pid);
    } else {
        registry.put_group(pgid, sid, pid);
        registry.add_session_group(sid, pgid);
    }
}

/// Moves `pid` from its group into the group `pgid` of the session `sid`.
fn migrate<D>(registry: &mut Registry<D>, pid: Pid, pgid: Pgid, sid: Sid, drop_session: bool)
    requires
        old(registry).wf(),
        may_migrate(old(registry)@, pid, pgid, sid, drop_session),
    ensures
        final(registry).wf(),
        final(registry)@ == old(registry)@.migrated(pid, pgid, sid, drop_session),
        final(registry).payloads() == old(registry).payloads(),
{
    proof {
        lemma_migrated_wf(registry@, pid, pgid, sid, drop_session);
    }
    unlink(registry, pid, drop_session);
    join(registry, pid, pgid, sid);
}

/// [`ProcessGroup`] & [`Session`].
impl Process {
    /// The [`ProcessGroup`] that the [`Process`] belongs to.
    pub fn group<D>(&self, registry: &Registry<D>) -> (group: ProcessGroup)
        requires
            registry.wf(),
            registry@.processes.contains_key(self.pid),
        ensures
            group == (ProcessGroup {
                pgid: registry@.processes[self.pid].group,
                sid: registry@.session_of(self.pid),
            }),
    {
        let pgid = registry.group_of(self.pid);
        ProcessGroup { pgid, sid: registry.session_of_group(pgid) }
    }

    /// The [`Session`] that the [`Process`] belongs to: that of its group.
    pub fn session<D>(&self, registry: &Registry<D>) -> (session: Session)
        requires
            registry.wf(),
            registry@.processes.contains_key(self.pid),
        ensures
            session == (Session { sid: registry@.session_of(self.pid) }),
    {
        self.group(registry).session()
    }

    /// Creates a new [`Session`] and a new [`ProcessGroup`], both named after
    /// the [`Process`], and moves the process to them.
    ///
    /// If the process leads its session already, nothing changes and that
    /// session is returned.  If it does not and a process group with its id
    /// exists, the call fails with [`ProcessError::PermissionDenied`].
    pub fn create_session<D>(&self, registry: &mut Registry<D>) -> (created: Result<
        Session,
        ProcessError,
    >)
        requires
            old(registry).wf(),
            old(registry)@.processes.contains_key(self.pid),
        ensures
            final(registry).wf(),
            final(registry)@ == old(registry)@.session_created(self.pid),
            final(registry).payloads() == old(registry).payloads(),
            created == if old(registry)@.session_denied(self.pid) {
                Err(ProcessError::PermissionDenied)
            } else {
                Ok(Session { sid: self.pid })
            },
    {
        let pid = self.pid;
        let session = self.session(registry);
        if session.sid == pid {
            return Ok(session);
        }
        if registry.has_group(pid) {
            return Err(ProcessError::PermissionDenied);
        }
        migrate(registry, pid, pid, pid, true);
        Ok(Session { sid: pid })
    }

    /// Creates a new [`ProcessGroup`] named after the [`Process`], in the
    /// session that the process is in, and moves the process to it.
    ///
    /// If the process leads its group already, nothing changes and that group
    /// is returned.  Otherwise no process group with its id may exist.
    pub fn create_group<D>(&self, registry: &mut Registry<D>) -> (group: ProcessGroup)
        requires
            old(registry).wf(),
            old(registry)@.processes.contains_key(self.pid),
            old(registry)@.processes[self.pid].group == self.pid
                || !old(registry)@.groups.contains_key(self.pid),
        ensures
            final(registry).wf(),
            final(registry)@ == old(registry)@.group_created(self.pid),
            final(registry).payloads() == old(registry).payloads(),
            group == (ProcessGroup { pgid: self.pid, sid: old(registry)@.session_of(self.pid) }),
    {
        let pid = self.pid;
        let group = self.group(registry);
        if group.pgid == pid {
            return group;
        }
        migrate(registry, pid, pid, group.sid, false);
        ProcessGroup { pgid: pid, sid: group.sid }
    }

    /// Moves the [`Process`] to the process group `target` of its session.
    ///
    /// If the process is in that group already, nothing changes.  If there is
    /// no such group and `target` is the id of the process, the group is
    /// created.  The call fails with [`ProcessError::PermissionDenied`], and
    /// changes nothing, if the process leads its session, if the group lies in
    /// another session, or if there is no such group and `target` is not the
    /// id of the process.
    pub fn set_group<D>(&self, registry: &mut Registry<D>, target: Pgid) -> (set: Result<
        (),
        ProcessError,
    >)
        requires
            old(registry).wf(),
            old(registry)@.processes.contains_key(self.pid),
        ensures
            final(registry).wf(),
            final(registry)@ == old(registry)@.group_set(self.pid, target),
            final(registry).payloads() == old(registry).payloads(),
            set == if old(registry)@.group_denied(self.pid, target) {
                Err::<(), ProcessError>(ProcessError::PermissionDenied)
            } else {
                Ok(())
            },
    {
        let pid = self.pid;
        let group = self.group(registry);
        if target == group.pgid {
            return Ok(());
        }
        if group.sid == pid {
            return Err(ProcessError::PermissionDenied);
        }
        if registry.has_group(target) {
            if registry.session_of_group(target) != group.sid {
                return Err(ProcessError::PermissionDenied);
            }
        } else if target != pid {
            return Err(ProcessError::PermissionDenied);
        }
        migrate(registry, pid, target, group.sid, false);
        Ok(())
    }

    /// Moves the [`Process`] to a specified [`ProcessGroup`].
    ///
    /// Returns `true` if the process is in that group afterwards.  The move
    /// fails, and changes nothing, if the group is not in the session of the
    /// process, or if its id now names a group of another session.  A group
    /// that was deregistered when it became empty is registered again.
    ///
    /// If the process is already in the specified group, this method does
    /// nothing and returns `true`.
    pub fn move_to_group<D>(&self, registry: &mut Registry<D>, group: &ProcessGroup) -> (moved:
        bool)
        requires
            old(registry).wf(),
            old(registry)@.processes.contains_key(self.pid),
        ensures
            final(registry).wf(),
            final(registry)@ == old(registry)@.moved(self.pid, group.pgid, group.sid),
            final(registry).payloads() == old(registry).payloads(),
            moved == old(registry)@.move_admitted(self.pid, group.pgid, group.sid),
    {
        let pid = self.pid;
        let current = self.group(registry);
        if current.pgid == group.pgid && current.sid == group.sid {
            return true;
        }
        if current.sid != group.sid {
            return false;
        }
        if registry.has_group(group.pgid) && registry.session_of_group(group.pgid) != group.sid {
            return false;
        }
        migrate(registry, pid, group.pgid, group.sid, false);
        true
    }
}

/// Reaping.
impl Process {
    /// Frees a zombie [`Process`]: removes it from its parent's children, from
    /// its group and from the registry.  A group that becomes empty is
    /// deregistered, and so is a session that becomes empty.  Processes that
    /// still named it as parent have no parent afterwards.
    ///
    /// Only a zombie can be freed.
    pub fn free<D>(&self, registry: &mut Registry<D>)
        requires
            old(registry).wf(),
            old(registry)@.processes.contains_key(self.pid),
            old(registry)@.processes[self.pid].zombie,
        ensures
            final(registry).wf(),
            final(registry)@ == old(registry)@.freed(self.pid),
            final(registry).payloads() == old(registry).payloads().remove(self.pid),
    {
        let pid = self.pid;
        let ghost before = old(registry)@;
        proof {
            lemma_freed_wf(before, pid);
            lemma_released_none(before, pid);
        }
        // Only a root that has exited can be named as parent by processes
        // that it does not list.
        let parent = registry.parent_of(pid);
        let others = if parent.is_some() {
            registry.children_of(pid)
        } else {
            registry.process_ids()
        };
        match parent {
            Some(above) => {
                registry.remove_child(above, pid);
            },
            None => {},
        }
        unlink(registry, pid, true);
        registry.drop_process(pid);
        let ghost mut cleared: Set<Pid> = Set::empty();
        let mut i: usize = 0;
        while i < others.len()
            invariant
                i <= others.len(),
                before.wf(),
                before.processes.contains_key(pid),
                forall|x: Pid| others@.contains(x) && x != pid ==> before.processes.contains_key(x),
                forall|k: int| 0 <= k < i ==> cleared.contains(#[trigger] others@[k]),
                registry@ == before.released(pid, cleared),
                registry.payloads() == old(registry).payloads().remove(pid),
            decreases others.len() - i,
        {
            let other = others[i];
            assert(others@.contains(other));
            if other != pid {
                let ghost reached = registry@;
                proof {
                    lemma_released_one(before, pid, cleared, other);
                }
                match registry.parent_of(other) {
                    Some(above) => {
                        if above == pid {
                            registry.set_parent(other, None);
                        }
                    },
                    None => {
                        assert(reached.processes.insert(other, reached.processes[other])
                            =~= reached.processes);
                    },
                }
            } else {
                assert(before.released(pid, cleared.insert(other)).processes
                    =~= before.released(pid, cleared).processes);
            }
            proof {
                cleared = cleared.insert(other);
            }
            i += 1;
        }
        proof {
            assert forall|x: Pid|
                before.processes.contains_key(x) && before.processes[x].parent == Some(
                    pid,
                ) implies cleared.contains(x) by {
                assert(others@.contains(x));
                let k = choose|k: int| 0 <= k < others@.len() && others@[k] == x;
                assert(cleared.contains(others@[k]));
            }
            lemma_released_all(before, pid, cleared);
        }
    }
}

/// What a log line about a process shows.
#[derive(Clone, Copy, PartialEq, Eq, Structural, Debug)]
pub struct ProcessSummary {
    /// The process id.
    pub pid: Pid,
    /// Whether the process is group exited.
    pub group_exited: bool,
    /// The exit code, once the process is a zombie.
    pub exit_code: Option<i32>,
    /// The id of the parent, if the process has one.
    pub parent: Option<Pid>,
    /// The process group of the process.
    pub group: ProcessGroup,
}

impl Process {
    /// What a log line about the [`Process`] shows: its id, parent and group,
    /// whether it is group exited, and its exit code once it is a zombie.
    pub fn summary<D>(&self, registry: &Registry<D>) -> (summary: ProcessSummary)
        requires
            registry.wf(),
            registry@.processes.contains_key(self.pid),
        ensures
            summary == (ProcessSummary {
                pid: self.pid,
                group_exited: registry@.processes[self.pid].group_exited,
                exit_code: if registry@.processes[self.pid].zombie {
                    Some(registry@.processes[self.pid].exit_code)
                } else {
                    None
                },
                parent: registry@.processes[self.pid].parent,
                group: ProcessGroup {
                    pgid: registry@.processes[self.pid].group,
                    sid: registry@.session_of(self.pid),
                },
            }),
    {
        let exit_code = if registry.zombie_of(self.pid) {
            Some(registry.exit_code_of(self.pid))
        } else {
            None
        };
        ProcessSummary {
            pid: self.pid,
            group_exited: registry.group_exited_of(self.pid),
            exit_code,
            parent: registry.parent_of(self.pid),
            group: self.group(registry),
        }
    }
}

/// Which children a query for a zombie considers.
#[derive(Clone, Copy, PartialEq, Eq, Structural, Debug)]
pub enum ProcessFilter {
    /// Any child.
    Any,
    /// The child with this process id.
    WithPid(Pid),
    /// The children that belong to the process group with this id.
    WithPgid(Pgid),
}

impl ProcessFilter {
    /// Whether the filter considers the process `child`.
    pub open spec fn admits(self, registry: RegistryView, child: Pid) -> bool {
        match self {
            ProcessFilter::Any => true,
            ProcessFilter::WithPid(pid) => child == pid,
            ProcessFilter::WithPgid(pgid) => registry.processes[child].group == pgid,
        }
    }

    /// Whether `child` is a child of `pid` that the filter considers.
    pub open spec fn selects(self, registry: RegistryView, pid: Pid, child: Pid) -> bool {
        registry.processes[pid].children.contains(child) && self.admits(registry, child)
    }

    /// Whether `child` is the zombie with the least id among the children of
    /// `pid` that the filter considers.
    pub open spec fn first_zombie(self, registry: RegistryView, pid: Pid, child: Pid) -> bool {
        &&& self.selects(registry, pid, child)
        &&& registry.processes[child].zombie
        &&& forall|other: Pid|
            self.selects(registry, pid, other) && registry.processes[other].zombie ==> child
                <= other
    }

    fn considers<D>(&self, registry: &Registry<D>, child: Pid) -> (admitted: bool)
        requires
            registry@.processes.contains_key(child),
        ensures
            admitted == self.admits(registry@, child),
    {
        match self {
            ProcessFilter::Any => true,
            ProcessFilter::WithPid(pid) => child == *pid,
            ProcessFilter::WithPgid(pgid) => registry.group_of(child) == *pgid,
        }
    }
}

/// Waiting & threads.
impl Process {
    /// Looks for a zombie among the children that `filter` considers, without
    /// blocking.
    ///
    /// Fails with [`ProcessError::NotFound`] if the filter considers no child
    /// at all.  Otherwise returns the zombie with the least id among those
    /// children, or `None` if none of them is a zombie yet.
    pub fn find_zombie_child<D>(&self, registry: &Registry<D>, filter: ProcessFilter) -> (found:
        Result<Option<Process>, ProcessError>)
        requires
            registry.wf(),
            registry@.processes.contains_key(self.pid),
        ensures
            match found {
                Ok(Some(child)) => filter.first_zombie(registry@, self.pid, child.pid),
                Ok(None) => {
                    &&& exists|child: Pid| filter.selects(registry@, self.pid, child)
                    &&& forall|child: Pid|
                        filter.selects(registry@, self.pid, child)
                            ==> !registry@.processes[child].zombie
                },
                Err(error) => {
                    &&& error == ProcessError::NotFound
                    &&& forall|child: Pid| !filter.selects(registry@, self.pid, child)
                },
            },
    {
        let children = registry.children_of(self.pid);
        let mut considered = false;
        let ghost mut witness: Pid = 0;
        let mut i: usize = 0;
        while i < children.len()
            invariant
                i <= children.len(),
                registry.wf(),
                registry@.processes.contains_key(self.pid),
                lists_ascending(children@, registry@.processes[self.pid].children),
                considered ==> filter.selects(registry@, self.pid, witness),
                forall|k: int|
                    0 <= k < i && filter.admits(registry@, #[trigger] children@[k]) ==> considered
                        && !registry@.processes[children@[k]].zombie,
            decreases children.len() - i,
        {
            let child = children[i];
            assert(children@.contains(child));
            if filter.considers(registry, child) {
                if registry.zombie_of(child) {
                    assert forall|other: Pid|
                        filter.selects(registry@, self.pid, other)
                            && registry@.processes[other].zombie implies child <= other by {
                        assert(children@.contains(other));
                        let k = choose|k: int| 0 <= k < children@.len() && children@[k] == other;
                        assert(k >= i);
                    }
                    return Ok(Some(Process { pid: child }));
                }
                considered = true;
                proof {
                    witness = child;
                }
            }
            i += 1;
        }
        assert forall|child: Pid| filter.selects(registry@, self.pid, child) implies considered
            && !registry@.processes[child].zombie by {
            assert(children@.contains(child));
            let k = choose|k: int| 0 <= k < children@.len() && children@[k] == child;
            assert(filter.admits(registry@, children@[k]));
        }
        if considered {
            Ok(None)
        } else {
            Err(ProcessError::NotFound)
        }
    }

    /// Adds a thread with the id `tid` to the thread group of the
    /// [`Process`].
    pub fn new_thread<D>(&self, registry: &mut Registry<D>, tid: Pid) -> (thread: Thread)
        requires
            old(registry).wf(),
            old(registry)@.processes.contains_key(self.pid),
        ensures
            thread == (Thread { tid, process: *self }),
            final(registry).wf(),
            final(registry)@ == old(registry)@.with_thread(self.pid, tid),
            final(registry).payloads() == old(registry).payloads(),
    {
        proof {
            lemma_thread_group_wf(registry@, self.pid, tid, 0);
        }
        registry.add_thread(self.pid, tid);
        Thread { tid, process: *self }
    }
}

} // verus!
