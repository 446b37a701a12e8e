//! Every transition of the model preserves the invariant of the registry.
use vstd::prelude::*;

use crate::model::{ProcessState, RegistryView};
use crate::{Pgid, Pid, Sid};

verus! {

/// The empty registry satisfies the invariant.
pub proof fn lemma_empty_wf()
    ensures
        RegistryView::empty().wf(),
{
}

/// Creating a process under an unused id preserves the invariant.
pub proof fn lemma_spawned_wf(s: RegistryView, pid: Pid, parent: Option<Pid>)
    requires
        s.wf(),
        s.is_unused(pid),
        parent is Some ==> s.processes.contains_key(parent->0),
    ensures
        s.spawned(pid, parent).wf(),
{
}

/// The topmost ancestor of a process is a registered root, of an earlier
/// generation than the process unless it is the process itself.
pub proof fn lemma_root_of(s: RegistryView, pid: Pid)
    requires
        s.wf(),
        s.processes.contains_key(pid),
    ensures
        s.processes.contains_key(s.root_of(pid)),
        s.processes[s.root_of(pid)].parent is None,
        s.processes[pid].parent is Some ==> s.processes[s.root_of(pid)].generation
            < s.processes[pid].generation,
        s.processes[pid].parent is None ==> s.root_of(pid) == pid,
        s.processes[pid].parent is Some ==> s.root_of(pid) == s.root_of(s.processes[pid].parent->0),
    decreases s.processes[pid].generation,
{
    match s.processes[pid].parent {
        Some(q) => {
            lemma_root_of(s, q);
        },
        None => {},
    }
}

/// Before any child is handed over, an exiting process has only become a
/// zombie without children.
pub proof fn lemma_handed_over_none(s: RegistryView, pid: Pid, top: Pid)
    requires
        s.processes.contains_key(pid),
    ensures
        s.handed_over(pid, top, Set::empty()) == (RegistryView {
            processes: s.processes.insert(
                pid,
                ProcessState { zombie: true, children: Set::empty(), ..s.processes[pid] },
            ),
            ..s
        }),
{
    let t = s.handed_over(pid, top, Set::empty());
    let e = s.processes.insert(
        pid,
        ProcessState { zombie: true, children: Set::empty(), ..s.processes[pid] },
    );
    assert forall|x: Pid| t.processes.contains_key(x) implies #[trigger] t.processes[x] == e[x] by {
        if x == top && x != pid {
            assert(s.processes[x].children.union(Set::empty()) =~= s.processes[x].children);
        }
    }
    assert(t.processes =~= e);
}

/// Handing one more child over to the topmost ancestor means to name the
/// ancestor as the child's parent and to list the child with the ancestor.
pub proof fn lemma_handed_over_one(s: RegistryView, pid: Pid, top: Pid, moved: Set<Pid>, child: Pid)
    requires
        s.wf(),
        s.processes.contains_key(pid),
        s.processes[pid].parent is Some,
        top == s.root_of(pid),
        s.processes[pid].children.contains(child),
        forall|x: Pid| moved.contains(x) ==> s.processes[pid].children.contains(x),
    ensures
        s.processes.contains_key(child),
        s.processes.contains_key(top),
        child != pid,
        child != top,
        top != pid,
        ({
            let t = s.handed_over(pid, top, moved);
            let named = t.processes.insert(
                child,
                ProcessState { parent: Some(top), ..t.processes[child] },
            );
            s.handed_over(pid, top, moved.insert(child)) == (RegistryView {
                processes: named.insert(
                    top,
                    ProcessState { children: named[top].children.insert(child), ..named[top] },
                ),
                ..t
            })
        }),
{
    lemma_root_of(s, pid);
    let t = s.handed_over(pid, top, moved);
    let named = t.processes.insert(child, ProcessState { parent: Some(top), ..t.processes[child] });
    let e = named.insert(
        top,
        ProcessState { children: named[top].children.insert(child), ..named[top] },
    );
    let u = s.handed_over(pid, top, moved.insert(child));
    assert forall|x: Pid| u.processes.contains_key(x) implies #[trigger] u.processes[x] == e[x] by {
        if x == top {
            let listed = s.processes[x].children;
            assert(listed.union(moved.insert(child)) =~= listed.union(moved).insert(child));
        }
    }
    assert(u.processes =~= e);
}

/// Exiting preserves the invariant.
pub proof fn lemma_exited_wf(s: RegistryView, pid: Pid)
    requires
        s.wf(),
        s.processes.contains_key(pid),
    ensures
        s.exited(pid).wf(),
{
    lemma_root_of(s, pid);
}

/// Whether `pid` may move into the group `pgid` of the session `sid`: either
/// within its own session, into a group of that session or one that is not
/// registered, or out of its session into a new session and group of its own.
pub open spec fn may_migrate(s: RegistryView, pid: Pid, pgid: Pgid, sid: Sid, drop_session: bool)
    -> bool {
    &&& s.processes.contains_key(pid)
    &&& s.processes[pid].group != pgid
    &&& if drop_session {
        &&& pgid == pid
        &&& sid == pid
        &&& s.session_of(pid) != pid
        &&& !s.groups.contains_key(pid)
    } else {
        &&& sid == s.session_of(pid)
        &&& s.groups.contains_key(pgid) ==> s.groups[pgid].session == sid
    }
}

/// Moving to another group preserves the invariant.
pub proof fn lemma_migrated_wf(s: RegistryView, pid: Pid, pgid: Pgid, sid: Sid, drop_session: bool)
    requires
        s.wf(),
        may_migrate(s, pid, pgid, sid, drop_session),
    ensures
        s.migrated(pid, pgid, sid, drop_session).wf(),
{
    let u = s.unlinked(pid, drop_session);
    let t = u.joined(pid, pgid, sid);
    assert forall|x: Sid| #[trigger]
        t.sessions.contains_key(x) implies !t.sessions[x].groups.is_empty() by {
        let g0 = s.processes[pid].group;
        let s0 = s.groups[g0].session;
        if x == sid && !u.groups.contains_key(pgid) {
            assert(t.sessions[x].groups.contains(pgid));
        } else if x == s0 && s.groups[g0].members.remove(pid).is_empty() {
            let left = s.sessions[s0].groups.remove(g0);
            if drop_session {
                assert(!left.is_empty());
            } else {
                assert(u.groups.contains_key(pgid));
                assert(s.groups.contains_key(pgid));
                assert(s.sessions[s0].groups.contains(pgid));
                assert(left.contains(pgid));
            }
        } else {
            assert(s.sessions.contains_key(x));
            assert(t.sessions[x] == s.sessions[x]);
        }
    }
}

/// Moving to another group changes but the membership of the process that
/// moves: every other process stays in its group and session, the process
/// itself is in the group and session it moved to, and a group that is
/// registered before and after is in the session it was in.
pub proof fn lemma_migrated_frame(
    s: RegistryView,
    pid: Pid,
    pgid: Pgid,
    sid: Sid,
    drop_session: bool,
    other: Pid,
    group: Pgid,
)
    requires
        s.wf(),
        may_migrate(s, pid, pgid, sid, drop_session),
        s.processes.contains_key(other),
    ensures
        s.migrated(pid, pgid, sid, drop_session).processes.dom() == s.processes.dom(),
        s.migrated(pid, pgid, sid, drop_session).processes[pid].group == pgid,
        s.migrated(pid, pgid, sid, drop_session).session_of(pid) == sid,
        other != pid ==> s.migrated(pid, pgid, sid, drop_session).processes[other]
            == s.processes[other],
        other != pid ==> s.migrated(pid, pgid, sid, drop_session).session_of(other) == s.session_of(
            other,
        ),
        s.groups.contains_key(group) && s.migrated(
            pid,
            pgid,
            sid,
            drop_session,
        ).groups.contains_key(group) ==> s.migrated(pid, pgid, sid, drop_session).groups[group].session
            == s.groups[group].session,
        s.migrated(pid, pgid, sid, drop_session).processes[pid] == (ProcessState {
            group: pgid,
            ..s.processes[pid]
        }),
{
    let t = s.migrated(pid, pgid, sid, drop_session);
    assert(t.processes.dom() =~= s.processes.dom());
    if other != pid {
        let g = s.processes[other].group;
        assert(s.groups[g].members.contains(other));
        if g == s.processes[pid].group {
            assert(s.groups[g].members.remove(pid).contains(other));
        }
    }
}

/// Right after a process left its parent, its group and the process
/// registry, no process has forgotten yet that it was its parent.
pub proof fn lemma_released_none(s: RegistryView, pid: Pid)
    requires
        s.wf(),
        s.processes.contains_key(pid),
    ensures
        ({
            let orphaned = match s.processes[pid].parent {
                Some(above) => RegistryView {
                    processes: s.processes.insert(
                        above,
                        ProcessState {
                            children: s.processes[above].children.remove(pid),
                            ..s.processes[above]
                        },
                    ),
                    ..s
                },
                None => s,
            };
            let unlinked = orphaned.unlinked(pid, true);
            s.released(pid, Set::empty()) == (RegistryView {
                processes: unlinked.processes.remove(pid),
                ..unlinked
            })
        }),
{
    let orphaned = match s.processes[pid].parent {
        Some(above) => RegistryView {
            processes: s.processes.insert(
                above,
                ProcessState {
                    children: s.processes[above].children.remove(pid),
                    ..s.processes[above]
                },
            ),
            ..s
        },
        None => s,
    };
    let unlinked = orphaned.unlinked(pid, true);
    let e = unlinked.processes.remove(pid);
    let t = s.released(pid, Set::empty());
    assert(unlinked.groups == s.unlinked(pid, true).groups);
    assert(unlinked.sessions == s.unlinked(pid, true).sessions);
    assert forall|x: Pid| t.processes.contains_key(x) implies #[trigger] t.processes[x] == e[x] by {
        if s.processes[pid].parent != Some(x) {
            assert(s.processes[x].children.remove(pid) =~= s.processes[x].children);
        }
    }
    assert(t.processes =~= e);
}

/// One more process forgets the reaped process: if it named it as parent, it
/// has no parent now.
pub proof fn lemma_released_one(s: RegistryView, pid: Pid, cleared: Set<Pid>, other: Pid)
    requires
        s.processes.contains_key(other),
        other != pid,
    ensures
        ({
            let t = s.released(pid, cleared);
            s.released(pid, cleared.insert(other)) == if s.processes[other].parent == Some(pid) {
                RegistryView {
                    processes: t.processes.insert(
                        other,
                        ProcessState { parent: None, ..t.processes[other] },
                    ),
                    ..t
                }
            } else {
                t
            }
        }),
{
    let t = s.released(pid, cleared);
    let u = s.released(pid, cleared.insert(other));
    if s.processes[other].parent == Some(pid) {
        assert(u.processes =~= t.processes.insert(
            other,
            ProcessState { parent: None, ..t.processes[other] },
        ));
    } else {
        assert(u.processes =~= t.processes);
    }
}

/// Once every process that named the reaped process as parent has forgotten
/// it, it is freed.
pub proof fn lemma_released_all(s: RegistryView, pid: Pid, cleared: Set<Pid>)
    requires
        forall|x: Pid|
            s.processes.contains_key(x) && s.processes[x].parent == Some(pid) ==> cleared.contains(
                x,
            ),
    ensures
        s.released(pid, cleared) == s.freed(pid),
{
    assert(s.released(pid, cleared).processes =~= s.freed(pid).processes);
}

/// Reaping a process preserves the invariant.
pub proof fn lemma_freed_wf(s: RegistryView, pid: Pid)
    requires
        s.wf(),
        s.processes.contains_key(pid),
    ensures
        s.freed(pid).wf(),
{
}

/// The operations on a thread group preserve the invariant.
pub proof fn lemma_thread_group_wf(s: RegistryView, pid: Pid, tid: Pid, exit_code: i32)
    requires
        s.wf(),
        s.processes.contains_key(pid),
    ensures
        s.with_thread(pid, tid).wf(),
        s.thread_exited(pid, tid, exit_code).wf(),
        s.group_exit_requested(pid).wf(),
{
}

} // verus!
