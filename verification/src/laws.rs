//! What holds of every registry that satisfies the invariant, and of every
//! outcome of the operations on it.
use vstd::prelude::*;

use crate::model::{Operation, RegistryView};
use crate::preservation::{
    lemma_exited_wf, lemma_freed_wf, lemma_migrated_frame, lemma_migrated_wf, lemma_root_of,
    lemma_spawned_wf, lemma_thread_group_wf,
};
use crate::process::ProcessFilter;
use crate::{Pgid, Pid};

verus! {

/// Tree integrity, downwards: whatever a process lists as its child is a
/// registered process, one that has not been freed, and names that process as
/// its parent.
pub proof fn lemma_listed_child_is_registered(s: RegistryView, parent: Pid, child: Pid)
    requires
        s.wf(),
        s.processes.contains_key(parent),
        s.processes[parent].children.contains(child),
    ensures
        s.processes.contains_key(child),
        s.processes[child].parent == Some(parent),
        child != parent,
{
}

/// Tree integrity, upwards: the parent of a registered process is registered
/// and lists the process among its children, unless the parent is a root that
/// has exited, which has let go of its children.
pub proof fn lemma_parent_lists_child(s: RegistryView, child: Pid)
    requires
        s.wf(),
        s.processes.contains_key(child),
        s.processes[child].parent is Some,
        !(s.processes[s.processes[child].parent->0].zombie
            && s.processes[s.processes[child].parent->0].parent is None),
    ensures
        s.processes.contains_key(s.processes[child].parent->0),
        s.processes[s.processes[child].parent->0].children.contains(child),
{
}

/// Tree integrity, after reaping: a process that was freed is registered no
/// more, no process lists it as a child, and no process names it as parent.
pub proof fn lemma_freed_is_forgotten(s: RegistryView, pid: Pid, other: Pid)
    requires
        s.wf(),
        s.processes.contains_key(pid),
        s.freed(pid).processes.contains_key(other),
    ensures
        !s.freed(pid).processes.contains_key(pid),
        !s.freed(pid).processes[other].children.contains(pid),
        s.freed(pid).processes[other].parent != Some(pid),
{
}

/// Group and session totality: every registered process belongs to a
/// registered process group that lists it, and that group belongs to a
/// registered session that lists it.
pub proof fn lemma_group_and_session_resolve(s: RegistryView, pid: Pid)
    requires
        s.wf(),
        s.processes.contains_key(pid),
    ensures
        s.groups.contains_key(s.processes[pid].group),
        s.groups[s.processes[pid].group].members.contains(pid),
        s.sessions.contains_key(s.session_of(pid)),
        s.sessions[s.session_of(pid)].groups.contains(s.processes[pid].group),
        s.members_of(s.processes[pid].group, s.session_of(pid)).contains(pid),
        s.groups_of(s.session_of(pid)).contains(s.processes[pid].group),
{
}

/// Reparenting: when a process that has a parent exits, each of its children
/// has the topmost ancestor of the process as its parent afterwards, and that
/// ancestor lists the child.
pub proof fn lemma_exit_reparents_children(s: RegistryView, pid: Pid, child: Pid)
    requires
        s.wf(),
        s.processes.contains_key(pid),
        s.processes[pid].parent is Some,
        s.processes[pid].children.contains(child),
    ensures
        s.exited(pid).processes[child].parent == Some(s.root_of(pid)),
        s.exited(pid).processes[s.root_of(pid)].children.contains(child),
        s.exited(pid).processes[pid].zombie,
        s.exited(pid).processes[pid].children.is_empty(),
        s.processes[s.root_of(pid)].parent is None,
{
    lemma_root_of(s, pid);
}

/// Reparenting, one level: when the parent of the exiting process is a root,
/// that root is the new parent of the children.
pub proof fn lemma_exit_reparents_to_init(s: RegistryView, init: Pid, pid: Pid, child: Pid)
    requires
        s.wf(),
        s.processes.contains_key(pid),
        s.processes[pid].parent == Some(init),
        s.processes[init].parent is None,
        s.processes[pid].children.contains(child),
    ensures
        s.exited(pid).processes[child].parent == Some(init),
        s.exited(pid).processes[init].children.contains(child),
{
    lemma_root_of(s, pid);
    lemma_root_of(s, init);
}

/// Reaping: a freed process is no child of its former parent any more.  If
/// it was the last member of its group, the group is registered no more and
/// its session lists it no more; if that group was the last of its session,
/// the session is registered no more.  A group or session that has others
/// left stays.
pub proof fn lemma_free_cleans_up(s: RegistryView, pid: Pid)
    requires
        s.wf(),
        s.processes.contains_key(pid),
    ensures
        s.freed(pid).wf(),
        s.processes[pid].parent matches Some(above) ==> !s.freed(
            pid,
        ).processes[above].children.contains(pid),
        ({
            let g = s.processes[pid].group;
            let sid = s.session_of(pid);
            let last_member = s.groups[g].members.remove(pid).is_empty();
            let last_group = s.sessions[sid].groups.remove(g).is_empty();
            &&& s.freed(pid).groups.contains_key(g) <==> !last_member
            &&& !last_member ==> s.freed(pid).groups[g].members == s.groups[g].members.remove(pid)
            &&& s.freed(pid).sessions.contains_key(sid) <==> !(last_member && last_group)
            &&& last_member && !last_group ==> !s.freed(pid).sessions[sid].groups.contains(g)
        }),
{
    lemma_freed_wf(s, pid);
}

/// Reaping the only child: a parent whose only child was freed has no child
/// that a query for a zombie could consider, whatever the filter.
pub proof fn lemma_free_of_only_child(
    s: RegistryView,
    parent: Pid,
    pid: Pid,
    filter: ProcessFilter,
    child: Pid,
)
    requires
        s.wf(),
        s.processes.contains_key(pid),
        s.processes[pid].parent == Some(parent),
        forall|other: Pid| s.processes[parent].children.contains(other) ==> other == pid,
    ensures
        !filter.selects(s.freed(pid), parent, child),
{
}

/// Group creation is idempotent: for a group leader it changes nothing, and
/// after it the process leads its group, so that a second call changes
/// nothing.
pub proof fn lemma_create_group_is_idempotent(s: RegistryView, pid: Pid)
    requires
        s.wf(),
        s.processes.contains_key(pid),
        s.processes[pid].group == pid || !s.groups.contains_key(pid),
    ensures
        s.processes[pid].group == pid ==> s.group_created(pid) == s,
        s.group_created(pid).wf(),
        s.group_created(pid).processes[pid].group == pid,
        s.group_created(pid).session_of(pid) == s.session_of(pid),
        s.group_created(pid).group_created(pid) == s.group_created(pid),
{
    if s.processes[pid].group != pid {
        lemma_migrated_wf(s, pid, pid, s.session_of(pid), false);
    }
}

/// Session creation is idempotent: after it succeeded the process leads its
/// session and its group, and a second call changes nothing and succeeds.
pub proof fn lemma_create_session_is_idempotent(s: RegistryView, pid: Pid)
    requires
        s.wf(),
        s.processes.contains_key(pid),
        !s.session_denied(pid),
    ensures
        s.session_of(pid) == pid ==> s.session_created(pid) == s,
        s.session_created(pid).wf(),
        s.session_created(pid).session_of(pid) == pid,
        !s.session_created(pid).session_denied(pid),
        s.session_created(pid).session_created(pid) == s.session_created(pid),
        s.session_of(pid) != pid ==> s.session_created(pid).processes[pid].group == pid,
{
    if s.session_of(pid) != pid {
        lemma_migrated_wf(s, pid, pid, pid, true);
    }
}

/// Session isolation: after a process has created a session, no process of
/// another session can move to its group; an attempt changes nothing.
pub proof fn lemma_session_isolation(s: RegistryView, leader: Pid, other: Pid)
    requires
        s.wf(),
        s.processes.contains_key(leader),
        s.session_of(leader) != leader,
        !s.session_denied(leader),
        s.processes.contains_key(other),
        other != leader,
    ensures
        s.session_created(leader).processes[leader].group == leader,
        s.session_created(leader).session_of(leader) == leader,
        s.session_created(leader).session_of(other) == s.session_of(other),
        s.session_created(leader).session_of(other) != leader,
        !s.session_created(leader).move_admitted(other, leader, leader),
        s.session_created(leader).moved(other, leader, leader) == s.session_created(leader),
{
    lemma_migrated_wf(s, leader, leader, leader, true);
}

/// A session leader cannot change its group: any request to move to another
/// group than the one it is in is denied, and changes nothing.
pub proof fn lemma_session_leader_keeps_group(s: RegistryView, pid: Pid, target: Pgid)
    requires
        s.wf(),
        s.processes.contains_key(pid),
        s.session_of(pid) == pid,
        target != s.processes[pid].group,
    ensures
        s.group_denied(pid, target),
        s.group_set(pid, target) == s,
{
}

/// Moving to a group is idempotent: a request to move to the group that the
/// process is in is granted and changes nothing, and after a granted request
/// the process is in the group it asked for.
pub proof fn lemma_set_group_is_idempotent(s: RegistryView, pid: Pid, target: Pgid)
    requires
        s.wf(),
        s.processes.contains_key(pid),
    ensures
        s.group_set(pid, target).wf(),
        s.group_denied(pid, target) ==> s.group_set(pid, target) == s,
        !s.group_denied(pid, target) ==> s.group_set(pid, target).processes[pid].group == target,
        !s.group_denied(pid, target) ==> !s.group_set(pid, target).group_denied(pid, target),
        s.group_set(pid, target).group_set(pid, target) == s.group_set(pid, target),
        s.group_set(pid, target).session_of(pid) == s.session_of(pid),
{
    if target != s.processes[pid].group && !s.group_denied(pid, target) {
        lemma_migrated_wf(s, pid, target, s.session_of(pid), false);
    }
}

/// Moving by handle never leaves the session: whether the request is granted
/// or refused, the registry satisfies the invariant afterwards, and the
/// process is in the session it was in.
pub proof fn lemma_move_stays_in_session(s: RegistryView, pid: Pid, pgid: Pgid, sid: Pgid)
    requires
        s.wf(),
        s.processes.contains_key(pid),
    ensures
        s.moved(pid, pgid, sid).wf(),
        s.moved(pid, pgid, sid).session_of(pid) == s.session_of(pid),
        s.move_admitted(pid, pgid, sid) ==> s.moved(pid, pgid, sid).is_member(pid, pgid, sid),
        !s.move_admitted(pid, pgid, sid) ==> s.moved(pid, pgid, sid) == s,
{
    if s.move_admitted(pid, pgid, sid) && !s.is_member(pid, pgid, sid) {
        lemma_migrated_wf(s, pid, pgid, sid, false);
    }
}

/// Every operation keeps the invariant: a registry that satisfies it before
/// an operation satisfies it after, whether the operation is granted or not.
pub proof fn lemma_operation_keeps_invariant(s: RegistryView, operation: Operation)
    requires
        s.wf(),
        s.permits(operation),
    ensures
        s.after(operation).wf(),
{
    match operation {
        Operation::Spawn { pid, parent } => {
            lemma_spawned_wf(s, pid, parent);
        },
        Operation::Exit { pid } => {
            lemma_exited_wf(s, pid);
        },
        Operation::Free { pid } => {
            lemma_freed_wf(s, pid);
        },
        Operation::CreateSession { pid } => {
            if !(s.session_of(pid) == pid || s.groups.contains_key(pid)) {
                lemma_migrated_wf(s, pid, pid, pid, true);
            }
        },
        Operation::CreateGroup { pid } => {
            lemma_create_group_is_idempotent(s, pid);
        },
        Operation::SetGroup { pid, target } => {
            lemma_set_group_is_idempotent(s, pid, target);
        },
        Operation::MoveToGroup { pid, pgid, sid } => {
            lemma_move_stays_in_session(s, pid, pgid, sid);
        },
        Operation::NewThread { pid, tid } => {
            lemma_thread_group_wf(s, pid, tid, 0);
        },
        Operation::ThreadExit { pid, tid, exit_code } => {
            lemma_thread_group_wf(s, pid, tid, exit_code);
        },
        Operation::GroupExit { pid } => {
            lemma_thread_group_wf(s, pid, 0, 0);
        },
    }
}

/// A process is registered until it is freed, and only creation registers
/// one.
pub proof fn lemma_registered_until_freed(s: RegistryView, operation: Operation, pid: Pid)
    requires
        s.wf(),
        s.permits(operation),
    ensures
        s.after(operation).processes.contains_key(pid) <==> match operation {
            Operation::Spawn { pid: new, parent } => pid == new || s.processes.contains_key(pid),
            Operation::Free { pid: freed } => pid != freed && s.processes.contains_key(pid),
            _ => s.processes.contains_key(pid),
        },
{
}

/// A zombie stays a zombie: no operation on any process brings back to life a
/// process that has exited.
pub proof fn lemma_zombie_stays_zombie(s: RegistryView, operation: Operation, pid: Pid)
    requires
        s.wf(),
        s.permits(operation),
        s.processes.contains_key(pid),
        s.processes[pid].zombie,
        s.after(operation).processes.contains_key(pid),
    ensures
        s.after(operation).processes[pid].zombie,
{
}

/// Only exiting makes a zombie.
pub proof fn lemma_only_exit_makes_zombie(s: RegistryView, operation: Operation, pid: Pid)
    requires
        s.wf(),
        s.permits(operation),
        s.processes.contains_key(pid),
        !s.processes[pid].zombie,
        s.after(operation).processes.contains_key(pid),
    ensures
        s.after(operation).processes[pid].zombie <==> operation == (Operation::Exit { pid }),
{
}

/// Exiting and reaping leave every other membership alone: a process that
/// exits stays in its group, and when a process is freed, every other process
/// stays in the group it is in.
pub proof fn lemma_exit_keeps_groups(s: RegistryView, pid: Pid, other: Pid)
    requires
        s.wf(),
        s.processes.contains_key(pid),
        s.processes.contains_key(other),
    ensures
        s.exited(pid).processes[other].group == s.processes[other].group,
        s.exited(pid).groups == s.groups,
        s.exited(pid).sessions == s.sessions,
        other != pid ==> s.freed(pid).processes[other].group == s.processes[other].group,
{
    lemma_root_of(s, pid);
}

/// A process changes its group only by asking to, a group never changes its
/// session, and a process leaves its session only for a session of its own.
pub proof fn lemma_membership_is_stable(s: RegistryView, operation: Operation, pid: Pid)
    requires
        s.wf(),
        s.permits(operation),
        s.processes.contains_key(pid),
        s.after(operation).processes.contains_key(pid),
    ensures
        !(operation.subject() == Some(pid) && (operation is CreateSession
            || operation is CreateGroup || operation is SetGroup || operation is MoveToGroup))
            ==> s.after(operation).processes[pid].group == s.processes[pid].group,
        !(operation == (Operation::CreateSession { pid })) ==> s.after(operation).session_of(pid)
            == s.session_of(pid),
        s.after(operation).groups.contains_key(s.processes[pid].group)
            ==> s.after(operation).groups[s.processes[pid].group].session == s.session_of(pid),
{
    let g = s.processes[pid].group;
    match operation {
        Operation::Spawn { pid: new, parent } => {},
        Operation::Exit { pid: subject } => {
            lemma_root_of(s, subject);
        },
        Operation::Free { pid: subject } => {
            assert(s.groups[g].members.contains(pid));
            assert(s.groups[s.processes[subject].group].members.remove(subject).contains(pid) || g
                != s.processes[subject].group);
        },
        Operation::CreateSession { pid: subject } => {
            if !(s.session_of(subject) == subject || s.groups.contains_key(subject)) {
                lemma_migrated_frame(s, subject, subject, subject, true, pid, g);
            }
        },
        Operation::CreateGroup { pid: subject } => {
            if s.processes[subject].group != subject {
                lemma_migrated_frame(s, subject, subject, s.session_of(subject), false, pid, g);
            }
        },
        Operation::SetGroup { pid: subject, target } => {
            if target != s.processes[subject].group && !s.group_denied(subject, target) {
                lemma_migrated_frame(s, subject, target, s.session_of(subject), false, pid, g);
            }
        },
        Operation::MoveToGroup { pid: subject, pgid, sid } => {
            if s.move_admitted(subject, pgid, sid) && !s.is_member(subject, pgid, sid) {
                lemma_migrated_frame(s, subject, pgid, sid, false, pid, g);
            }
        },
        Operation::NewThread { pid: subject, tid } => {},
        Operation::ThreadExit { pid: subject, tid, exit_code } => {},
        Operation::GroupExit { pid: subject } => {},
    }
}

/// The allocator never goes back, and it lies beyond the id of every process
/// that was created.
pub proof fn lemma_allocator_never_goes_back(s: RegistryView, operation: Operation)
    requires
        s.wf(),
        s.permits(operation),
    ensures
        s.next_pid <= s.after(operation).next_pid,
        operation matches Operation::Spawn { pid, parent } ==> pid < s.after(operation).next_pid,
{
}

/// The exit code is frozen by a group-wide exit: once one was requested, no
/// operation changes the exit code of the process, and the request stands.
pub proof fn lemma_group_exit_freezes_exit_code(s: RegistryView, operation: Operation, pid: Pid)
    requires
        s.wf(),
        s.permits(operation),
        s.processes.contains_key(pid),
        s.processes[pid].group_exited,
        s.after(operation).processes.contains_key(pid),
    ensures
        s.after(operation).processes[pid].group_exited,
        s.after(operation).processes[pid].exit_code == s.processes[pid].exit_code,
{
}

/// A request that is denied changes nothing.
pub proof fn lemma_denied_changes_nothing(s: RegistryView, pid: Pid, target: Pgid, sid: Pgid)
    ensures
        s.session_denied(pid) ==> s.session_created(pid) == s,
        s.group_denied(pid, target) ==> s.group_set(pid, target) == s,
        !s.move_admitted(pid, target, sid) ==> s.moved(pid, target, sid) == s,
{
}

} // verus!
