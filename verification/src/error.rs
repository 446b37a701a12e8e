//! The errors that operations report to their caller.
use vstd::prelude::*;

verus! {

/// Why an operation was refused.  A refused operation changes nothing.
#[derive(Clone, Copy, PartialEq, Eq, Structural, Debug)]
pub enum ProcessError {
    /// The caller may not do this: a session or group leader asked for what
    /// only others may have, or the target lies in another session.
    PermissionDenied,
    /// Nothing matches the request.
    NotFound,
}

} // verus!
