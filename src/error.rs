use vstd::prelude::*;

verus! {

/// The failure kinds that the core reports to its callers.
#[derive(Debug, Clone, Copy, PartialEq, Eq, Structural)]
pub enum ServiceError {
    /// A malformed identifier or argument (for example an id that is not a UUID).
    InvalidArgument,
    /// A bad credential, a bad or expired session, or a missing or malformed header.
    Unauthenticated,
    /// A duplicate assignment or a name that is already taken.
    Conflict,
    /// An entity that an administrative operation refers to does not exist.
    NotFound,
    /// The store or a capability it depends on failed.
    Internal,
}

} // verus!
