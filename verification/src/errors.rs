use vstd::prelude::*;

verus! {

/// The failure taxonomy of the library.
///
/// Every operation returns a typed failure instead of aborting its caller,
/// and every failure carries a human-readable reason.  `InvariantViolation`
/// and `PermissionDenied` are terminal for the call that produced them: the
/// library never auto-corrects or retries.
#[derive(Clone, Debug, PartialEq, Eq)]
pub enum Error {
    /// A required record or index entry is missing.
    NotFound(String),
    /// The caller lacks the role the operation demands.
    PermissionDenied(String),
    /// The operation would break a structural invariant (drop the last
    /// administrator or coordinator, register a duplicate, grow an
    /// organization that is not accepted).
    InvariantViolation(String),
    /// A stored value does not have the shape the operation expects.
    MalformedState(String),
    /// A precondition on the request itself is not met (a missing duration,
    /// a profile that already exists).
    PreconditionFailed(String),
}

impl Error {
    /// The human-readable reason attached to the failure.
    pub fn message(&self) -> (r: &String)
        ensures
            *self matches Error::NotFound(m) ==> r == m,
            *self matches Error::PermissionDenied(m) ==> r == m,
            *self matches Error::InvariantViolation(m) ==> r == m,
            *self matches Error::MalformedState(m) ==> r == m,
            *self matches Error::PreconditionFailed(m) ==> r == m,
    {
        match self {
            Error::NotFound(m) => m,
            Error::PermissionDenied(m) => m,
            Error::InvariantViolation(m) => m,
            Error::MalformedState(m) => m,
            Error::PreconditionFailed(m) => m,
        }
    }
}

} // verus!
