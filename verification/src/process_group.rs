//! Process groups.
use vstd::prelude::*;

use crate::ids::lists_ascending;
use crate::process::{handles, pids_of, Process};
use crate::registry::Registry;
use crate::session::Session;
use crate::{Pgid, Sid};

verus! {

/// A handle to a process group: the group `pgid` of the session `sid`.
///
/// A group is registered as long as it has members.  The handle outlives the
/// group: a group that is not registered has no processes, and a process that
/// moves to it registers it again.
#[derive(Clone, Copy, PartialEq, Eq, Structural, Debug)]
pub struct ProcessGroup {
    /// The process group id: the id of the process that created the group.
    pub pgid: Pgid,
    /// The id of the session that the group was created in.
    pub sid: Sid,
}

/// The ids of the process groups in `groups`, in the same order.
pub open spec fn pgids_of(groups: Seq<ProcessGroup>) -> Seq<Pgid> {
    groups.map_values(|group: ProcessGroup| group.pgid)
}

impl ProcessGroup {
    /// The [`ProcessGroup`] id.
    pub fn pgid(&self) -> (pgid: Pgid)
        ensures
            pgid == self.pgid,
    {
        self.pgid
    }

    /// The [`Session`] that the [`ProcessGroup`] belongs to.
    pub fn session(&self) -> (session: Session)
        ensures
            session == (Session { sid: self.sid }),
    {
        Session { sid: self.sid }
    }

    /// The [`Process`]es that belong to this [`ProcessGroup`], in ascending
    /// order of their ids.
    pub fn processes<D>(&self, registry: &Registry<D>) -> (processes: Vec<Process>)
        ensures
            lists_ascending(pids_of(processes@), registry@.members_of(self.pgid, self.sid)),
    {
        if registry.has_group(self.pgid) && registry.session_of_group(self.pgid) == self.sid {
            let pids = registry.members_of(self.pgid);
            handles(&pids)
        } else {
            let processes: Vec<Process> = Vec::new();
            assert(pids_of(processes@) =~= Seq::empty());
            processes
        }
    }
}

} // verus!
