//! Why a report of a lost dispute is turned down.
use vstd::prelude::*;

verus! {

/// The reasons for which a report of a lost dispute is rejected.
#[derive(Clone, Copy, Debug, PartialEq, Eq, Hash, Structural)]
pub enum Error {
    /// The proof of key ownership does not hold.
    InvalidKeyOwnershipProof,
    /// The session of the dispute is not on record.
    InvalidSessionIndex,
    /// No loser of a dispute about this candidate, session and kind waits.
    InvalidCandidateHash,
    /// The validator is not among the losers that wait for this dispute.
    InvalidValidatorIndex,
    /// The validator index does not name the validator's key in the session.
    ValidatorIndexIdMismatch,
    /// The report holds, but the offence sink did not take the offence.
    DuplicateSlashingReport,
}

} // verus!
