//! The three registries, listed.
use vstd::prelude::*;

use crate::ids::lists_ascending;
use crate::process::{handles, pids_of, Process};
use crate::process_group::{pgids_of, ProcessGroup};
use crate::registry::Registry;
use crate::session::Session;
use crate::Sid;

verus! {

/// The ids of the sessions in `sessions`, in the same order.
pub open spec fn sids_of(sessions: Seq<Session>) -> Seq<Sid> {
    sessions.map_values(|session: Session| session.sid)
}

/// The [`Process`] table: every registered process, in ascending order of
/// the ids.
pub fn process_table<D>(registry: &Registry<D>) -> (processes: Vec<Process>)
    ensures
        lists_ascending(pids_of(processes@), registry@.processes.dom()),
{
    let pids = registry.process_ids();
    handles(&pids)
}

/// The [`ProcessGroup`] table: every registered process group, in ascending
/// order of the ids.
pub fn process_group_table<D>(registry: &Registry<D>) -> (groups: Vec<ProcessGroup>)
    ensures
        lists_ascending(pgids_of(groups@), registry@.groups.dom()),
        forall|k: int|
            0 <= k < groups@.len() ==> (#[trigger] groups@[k]).sid
                == registry@.groups[groups@[k].pgid].session,
{
    let pgids = registry.group_ids();
    let mut groups: Vec<ProcessGroup> = Vec::new();
    let mut i: usize = 0;
    while i < pgids.len()
        invariant
            i <= pgids.len(),
            groups@.len() == i,
            lists_ascending(pgids@, registry@.groups.dom()),
            forall|k: int| 0 <= k < i ==> (#[trigger] groups@[k]).pgid == pgids@[k],
            forall|k: int|
                0 <= k < i ==> (#[trigger] groups@[k]).sid
                    == registry@.groups[groups@[k].pgid].session,
        decreases pgids.len() - i,
    {
        let pgid = pgids[i];
        assert(pgids@.contains(pgid));
        groups.push(ProcessGroup { pgid, sid: registry.session_of_group(pgid) });
        i += 1;
    }
    assert(pgids_of(groups@) =~= pgids@);
    groups
}

/// The [`Session`] table: every registered session, in ascending order of the
/// ids.
pub fn session_table<D>(registry: &Registry<D>) -> (sessions: Vec<Session>)
    ensures
        lists_ascending(sids_of(sessions@), registry@.sessions.dom()),
{
    let sids = registry.session_ids();
    let mut sessions: Vec<Session> = Vec::new();
    let mut i: usize = 0;
    while i < sids.len()
        invariant
            i <= sids.len(),
            sessions@.len() == i,
            forall|k: int| 0 <= k < i ==> (#[trigger] sessions@[k]).sid == sids@[k],
        decreases sids.len() - i,
    {
        sessions.push(Session { sid: sids[i] });
        i += 1;
    }
    assert(sids_of(sessions@) =~= sids@);
    sessions
}

} // verus!
