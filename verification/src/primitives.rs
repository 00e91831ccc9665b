//! Identifiers and plain records that the slashing logic shares with the rest of
//! the relay chain.
use vstd::prelude::*;

verus! {

/// Counter of validator-set epochs.
pub type SessionIndex = u32;

/// Position of a validator in the validator list of one session.
pub type ValidatorIndex = u32;

/// Height of a block.
pub type BlockNumber = u32;

/// Cost of a call, in units of computation time.
pub type Weight = u64;

/// Whether two arrays of 32 bytes hold the same bytes.
pub fn bytes32_eq(a: &[u8; 32], b: &[u8; 32]) -> (same: bool)
    ensures
        same == (*a == *b),
{
    let mut i: usize = 0;
    while i < 32
        invariant
            i <= 32,
            forall|j: int| 0 <= j < i ==> a[j] == b[j],
        decreases 32 - i,
    {
        if a[i] != b[i] {
            return false;
        }
        i += 1;
    }
    assert(*a =~= *b);
    true
}

/// Content hash that names the disputed candidate.
#[derive(Clone, Copy, Debug, Eq, PartialOrd, Ord, Hash)]
pub struct CandidateHash(pub [u8; 32]);

impl PartialEq for CandidateHash {
    fn eq(&self, other: &Self) -> (same: bool) {
        bytes32_eq(&self.0, &other.0)
    }
}

impl vstd::std_specs::cmp::PartialEqSpecImpl for CandidateHash {
    open spec fn obeys_eq_spec() -> bool {
        true
    }

    open spec fn eq_spec(&self, other: &Self) -> bool {
        *self == *other
    }
}

/// Session key of a parachain validator.
#[derive(Clone, Copy, Debug, Eq, Hash)]
pub struct ValidatorId(pub [u8; 32]);

impl PartialEq for ValidatorId {
    fn eq(&self, other: &Self) -> (same: bool) {
        bytes32_eq(&self.0, &other.0)
    }
}

impl vstd::std_specs::cmp::PartialEqSpecImpl for ValidatorId {
    open spec fn obeys_eq_spec() -> bool {
        true
    }

    open spec fn eq_spec(&self, other: &Self) -> bool {
        *self == *other
    }
}

/// Four bytes that name the purpose of a session key.
pub type KeyTypeId = [u8; 4];

/// The key type of parachain validator keys: the bytes of `para`.
pub const PARACHAIN_KEY_TYPE_ID: KeyTypeId = [112, 97, 114, 97];

/// What the session directory keeps about one session.
#[derive(Debug, PartialEq, Eq)]
pub struct SessionInfo {
    /// The parachain validators of the session, by validator index.
    pub validators: Vec<ValidatorId>,
    /// The number of all validators of the session, parachain validators or not.
    pub total_validator_count: u32,
}

/// What a session record says.
pub struct SessionInfoView {
    /// The parachain validators of the session, by validator index.
    pub validators: Seq<ValidatorId>,
    /// The number of all validators of the session.
    pub total_validator_count: u32,
}

impl View for SessionInfo {
    type V = SessionInfoView;

    open spec fn view(&self) -> SessionInfoView {
        SessionInfoView {
            validators: self.validators@,
            total_validator_count: self.total_validator_count,
        }
    }
}

/// Whether `validator_id` is the key at `validator_index` in `validators`.
pub open spec fn validator_is_at(
    validators: Seq<ValidatorId>,
    validator_index: ValidatorIndex,
    validator_id: ValidatorId,
) -> bool {
    validator_index < validators.len() && validators[validator_index as int] == validator_id
}

impl SessionInfo {
    /// Whether `validator_id` is the key of the validator at
    /// `validator_index` in this session.
    pub fn has_validator(&self, validator_index: ValidatorIndex, validator_id: &ValidatorId) -> (found:
        bool)
        ensures
            found == validator_is_at(self@.validators, validator_index, *validator_id),
    {
        let i: usize = validator_index as usize;
        if i < self.validators.len() {
            self.validators[i] == *validator_id
        } else {
            false
        }
    }
}

/// Notice that a new session begins.
#[derive(Clone, Copy, Debug, PartialEq, Eq, Structural)]
pub struct SessionChangeNotification {
    /// The session that begins.
    pub session_index: SessionIndex,
}

/// Whether the sender of a call pays a fee for it.
#[derive(Clone, Copy, Debug, PartialEq, Eq, Structural)]
pub enum Pays {
    /// The sender pays the fee.
    Yes,
    /// The call is free.
    No,
}

} // verus!
