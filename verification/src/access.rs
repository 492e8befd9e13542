//! Why an access was refused.

use vstd::prelude::*;

verus! {

/// The three ways in which a pointer can refuse access.
#[derive(Debug, Clone, Copy, PartialEq, Eq, Hash, PartialOrd, Ord, Structural)]
pub enum NoAccess {
    /// The value is in use in a way that conflicts. Try again later.
    Blocked,
    /// The value that the pointer was taken from is gone. This pointer will
    /// never give access again.
    Stale,
    /// The value is in use in a way that conflicts, and the caller, who asked
    /// to wait, would wait for itself.
    Deadlock,
}

} // verus!
