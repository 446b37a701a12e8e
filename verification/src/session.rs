//! Sessions.
use vstd::prelude::*;

use crate::ids::lists_ascending;
use crate::process_group::{pgids_of, ProcessGroup};
use crate::registry::Registry;
use crate::{Pgid, Sid};

verus! {

/// A handle to a session.
///
/// A session is registered as long as it has process groups.  The handle
/// outlives the session: a session that is not registered has no groups.
#[derive(Clone, Copy, PartialEq, Eq, Structural, Debug)]
pub struct Session {
    /// The session id: the id of the process that created the session.
    pub sid: Sid,
}

/// The handles of the process groups `pgids` of the session `sid`, in the
/// same order.
pub(crate) fn group_handles(pgids: &Vec<Pgid>, sid: Sid) -> (groups: Vec<ProcessGroup>)
    ensures
        pgids_of(groups@) == pgids@,
        forall|k: int| 0 <= k < groups@.len() ==> (#[trigger] groups@[k]).sid == sid,
{
    let mut groups: Vec<ProcessGroup> = Vec::new();
    let mut i: usize = 0;
    while i < pgids.len()
        invariant
            i <= pgids.len(),
            groups@.len() == i,
            forall|k: int| 0 <= k < i ==> (#[trigger] groups@[k]).pgid == pgids@[k],
            forall|k: int| 0 <= k < i ==> (#[trigger] groups@[k]).sid == sid,
        decreases pgids.len() - i,
    {
        groups.push(ProcessGroup { pgid: pgids[i], sid });
        i += 1;
    }
    assert(pgids_of(groups@) =~= pgids@);
    groups
}

impl Session {
    /// The [`Session`] id.
    pub fn sid(&self) -> (sid: Sid)
        ensures
            sid == self.sid,
    {
        self.sid
    }

    /// The [`ProcessGroup`]s that belong to this [`Session`], in ascending
    /// order of their ids.
    pub fn process_groups<D>(&self, registry: &Registry<D>) -> (groups: Vec<ProcessGroup>)
        ensures
            lists_ascending(pgids_of(groups@), registry@.groups_of(self.sid)),
            forall|k: int| 0 <= k < groups@.len() ==> (#[trigger] groups@[k]).sid == self.sid,
    {
        if registry.has_session(self.sid) {
            let pgids = registry.groups_of(self.sid);
            group_handles(&pgids, self.sid)
        } else {
            let groups: Vec<ProcessGroup> = Vec::new();
            assert(pgids_of(groups@) =~= Seq::empty());
            groups
        }
    }
}

} // verus!
