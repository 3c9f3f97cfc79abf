use vstd::prelude::*;

verus! {

/// The classified failures this repository reports.
///
/// Every store-level failure is translated into exactly one of these kinds and
/// propagated unchanged to the caller; the repository performs no local
/// recovery.
#[derive(Clone, Copy, Debug, PartialEq, Eq, Structural)]
pub enum RepoError {
    /// A point lookup or a row-returning mutation matched zero rows.
    NotFound,
    /// A delete affected a row count other than exactly one.
    AffectedMismatch,
    /// The store rejected a statement over a uniqueness or
    /// referential-integrity rule.
    ConstraintViolation,
    /// A transport, timeout, or pool failure of the underlying store client.
    ConnectivityFailure,
}

/// Affected-row verification: converts an affected-row count other than the
/// expected one into an explicit error, so a delete whose target does not
/// exist is reported rather than silently ignored.
pub fn ensure_affected(expected: u64, actual: u64) -> (r: Result<(), RepoError>)
    ensures
        r == (if actual == expected {
            Ok::<(), RepoError>(())
        } else {
            Err::<(), RepoError>(RepoError::AffectedMismatch)
        }),
{
    if actual == expected {
        Ok(())
    } else {
        Err(RepoError::AffectedMismatch)
    }
}

} // verus!
