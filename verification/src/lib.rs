//! Process, process-group and session bookkeeping for an operating-system
//! kernel.
//!
//! All entities live in a [`Registry`], keyed by their identifier, and are
//! addressed through small copyable handles: [`Process`], [`ProcessGroup`],
//! [`Session`] and [`Thread`].  What an operation does is stated as a
//! transition on [`model::RegistryView`], the mathematical model of a
//! registry.  The module [`preservation`] proves that every transition keeps
//! the invariant of the registry, and the module [`laws`] what follows for
//! the process tree, for groups and for sessions.
//!
//! A registry is a plain value: an operation that changes it takes it by
//! `&mut`.  Kernel contexts that share a registry keep it behind a lock.
use vstd::prelude::*;

pub mod error;
pub mod ids;
pub mod laws;
pub mod model;
pub mod preservation;
pub mod process;
pub mod process_group;
pub mod registry;
pub mod session;
pub mod table;
pub mod thread;

pub use error::ProcessError;
pub use process::{Process, ProcessBuilder, ProcessFilter, ProcessSummary};
pub use process_group::ProcessGroup;
pub use registry::Registry;
pub use session::Session;
pub use table::{process_group_table, process_table, session_table};
pub use thread::Thread;

verus! {

/// Process id.
pub type Pid = u32;

/// Process group id.
pub type Pgid = u32;

/// Session id.
pub type Sid = u32;

} // verus!
