//! The kinds of failure that the core reports.
use vstd::prelude::*;

verus! {

/// Why an operation of the core failed.
///
/// `DecodeError`, `ProofInvalid`, `ClaimMissing`, `RelationshipNotMutual`,
/// `AccountMismatch` and `RootInconsistent` are the caller's to fix;
/// `StorageError` and `UploadError` come from the services around the core.
#[derive(Clone, Copy, Debug, PartialEq, Eq, Structural)]
pub enum CoreError {
    /// The proof text or bytes are not well formed.
    DecodeError,
    /// The presentation did not verify.
    ProofInvalid,
    /// The transcript holds no readable identity handle.
    ClaimMissing,
    /// The transcript does not show both relationship flags set to `true`.
    RelationshipNotMutual,
    /// The digest of the proven identity is not the claimed account.
    AccountMismatch,
    /// No ledger exists for the account.
    TreeNotFound,
    /// A root was asked of an empty leaf sequence.
    EmptyTree,
    /// The ledger changed since the caller read it, or disagrees with its leaves.
    RootInconsistent,
    /// The ledger store failed or is full.
    StorageError,
    /// The artifact store failed.
    UploadError,
}

} // verus!
