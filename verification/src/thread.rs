//! Threads and the thread group of a process.
use vstd::prelude::*;

use crate::preservation::lemma_thread_group_wf;
use crate::process::Process;
use crate::registry::Registry;
use crate::Pid;

verus! {

/// A handle to a thread of a process.
#[derive(Clone, Copy, PartialEq, Eq, Structural, Debug)]
pub struct Thread {
    /// The thread id.
    pub tid: Pid,
    /// The process that the thread belongs to.
    pub process: Process,
}

impl Thread {
    /// The [`Thread`] id.
    pub fn tid(&self) -> (tid: Pid)
        ensures
            tid == self.tid,
    {
        self.tid
    }

    /// The [`Process`] this thread belongs to.
    pub fn process(&self) -> (process: &Process)
        ensures
            *process == self.process,
    {
        &self.process
    }

    /// Exits the thread: it leaves the thread group of its process, and
    /// `exit_code` becomes the exit code of the process unless the process is
    /// group exited.
    ///
    /// Returns `true` if no thread is left in the thread group.
    pub fn exit<D>(&self, registry: &mut Registry<D>, exit_code: i32) -> (last: bool)
        requires
            old(registry).wf(),
            old(registry)@.processes.contains_key(self.process.pid),
        ensures
            final(registry).wf(),
            final(registry)@ == old(registry)@.thread_exited(self.process.pid, self.tid, exit_code),
            final(registry).payloads() == old(registry).payloads(),
            last == old(registry)@.processes[self.process.pid].threads.remove(self.tid).is_empty(),
    {
        proof {
            lemma_thread_group_wf(registry@, self.process.pid, self.tid, exit_code);
        }
        registry.remove_thread(self.process.pid, self.tid, exit_code)
    }
}

} // verus!
