//! The errors of the store and of queries.

use vstd::prelude::*;

verus! {

/// The ways in which an operation on the store or a query can fail.
#[derive(Clone, Copy, Debug, PartialEq, Eq, Structural)]
pub enum EcsError {
    /// The entity has been despawned, or was never spawned.
    EntityNotFound,
    /// No resource of the requested kind has been inserted.
    ResourceMissing,
    /// Nothing matched where a match was expected.
    NoMatch,
    /// More than one entity matched where exactly one was expected.
    AmbiguousMatch,
    /// Two views of one component kind were requested at once, one of them mutable.
    ConflictingBorrow,
}

impl EcsError {
    /// Whether the scheduler must stop after this error. Every other error
    /// only ends the body of the system that met it, for the current tick.
    pub open spec fn fatal(self) -> bool {
        self == EcsError::ConflictingBorrow
    }

    /// Tells whether the scheduler must stop after this error.
    pub fn is_fatal(&self) -> (r: bool)
        ensures
            r == self.fatal(),
    {
        match self {
            EcsError::ConflictingBorrow => true,
            _ => false,
        }
    }
}

} // verus!
