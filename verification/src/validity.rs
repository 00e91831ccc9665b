//! What the transaction pool is told about a report of a lost dispute.
use crate::offence::SlashingOffenceKind;
use crate::primitives::{CandidateHash, SessionIndex, ValidatorId};
use crate::time_slot::DisputesTimeSlot;
use vstd::bytes::spec_u32_to_le_bytes;
use vstd::prelude::*;
use vstd::string::StringSliceAdditionalSpecFns;

verus! {

/// Rank of a transaction among those that are ready; the higher goes first.
pub type TransactionPriority = u64;

/// The number of blocks for which a transaction stays valid.
pub type TransactionLongevity = u64;

/// Bytes that name what a transaction provides; the pool keeps one
/// transaction per tag.
pub type TransactionTag = Vec<u8>;

/// Where a transaction comes from.
#[derive(Clone, Copy, Debug, PartialEq, Eq, Hash, Structural)]
pub enum TransactionSource {
    /// The transaction is part of a block that is being imported.
    InBlock,
    /// The transaction was made by this node.
    Local,
    /// The transaction was received from a peer or over RPC.
    External,
}

/// Why a transaction is not admitted.
#[derive(Clone, Copy, Debug, PartialEq, Eq, Hash, Structural)]
pub enum InvalidTransaction {
    /// The call is not expected from this source.
    Call,
    /// The offence that the transaction reports is known already.
    Stale,
    /// The proof of key ownership does not hold.
    BadProof,
}

/// What the pool is told about a transaction that is admitted.
#[derive(Debug, PartialEq, Eq)]
pub struct ValidTransaction {
    /// Rank among the transactions that are ready.
    pub priority: TransactionPriority,
    /// Tags that other transactions have to provide first.
    pub requires: Vec<TransactionTag>,
    /// Tags that this transaction provides.
    pub provides: Vec<TransactionTag>,
    /// The number of blocks for which the transaction stays valid.
    pub longevity: TransactionLongevity,
    /// Whether the transaction is sent on to peers.
    pub propagate: bool,
}

/// Whether a transaction is admitted, and as what.
pub type TransactionValidity = Result<ValidTransaction, InvalidTransaction>;

/// Whether a report is stale, where `known` is what the checks found: nothing
/// where the proof of key ownership does not hold, else whether the offence
/// sink knows the offence already.
pub open spec fn staleness(known: Option<bool>) -> Result<(), InvalidTransaction> {
    match known {
        None => Err(InvalidTransaction::BadProof),
        Some(true) => Err(InvalidTransaction::Stale),
        Some(false) => Ok(()),
    }
}

/// Whether a report from `source` is admitted: one from a peer never is, and
/// one made by this node or found in a block is unless it is stale.
pub open spec fn admission(source: TransactionSource, known: Option<bool>) -> Result<
    (),
    InvalidTransaction,
> {
    if source == TransactionSource::External {
        Err(InvalidTransaction::Call)
    } else {
        staleness(known)
    }
}

/// Every source that is admitted at all gets the answer that the check before
/// dispatch gives: a report is judged alike when it enters the pool, when it
/// is found in a block, and before it is dispatched, as long as the checks
/// find the same.
pub proof fn lemma_admission_is_repeatable(
    first: TransactionSource,
    second: TransactionSource,
    known: Option<bool>,
)
    requires
        first != TransactionSource::External,
        second != TransactionSource::External,
    ensures
        admission(first, known) == admission(second, known),
        admission(first, known) == staleness(known),
{
}

/// The tag of a report: one byte with four times the length of `prefix`, the
/// bytes of `prefix`, the session index with its low byte first, the
/// candidate hash and the validator's key.
pub open spec fn provided_tag(
    prefix: &str,
    session_index: SessionIndex,
    candidate_hash: CandidateHash,
    validator_id: ValidatorId,
) -> Seq<u8> {
    seq![(4 * prefix.spec_bytes().len()) as u8] + prefix.spec_bytes() + spec_u32_to_le_bytes(
        session_index,
    ) + candidate_hash.0@ + validator_id.0@
}

/// The prefix of the tags of this kind of report.
pub open spec fn spec_tag_prefix(kind: SlashingOffenceKind) -> &'static str {
    match kind {
        SlashingOffenceKind::ForInvalid => "DisputeForInvalid",
        SlashingOffenceKind::AgainstValid => "DisputeAgainstValid",
    }
}

/// Whether `valid` is what the pool is told about an admitted report of
/// `validator_id` for the dispute `time_slot`: the highest priority, no
/// requirement, the one tag of the report, `longevity` blocks, and no
/// propagation.
pub open spec fn admits_report(
    valid: ValidTransaction,
    kind: SlashingOffenceKind,
    time_slot: DisputesTimeSlot,
    validator_id: ValidatorId,
    longevity: TransactionLongevity,
) -> bool {
    &&& valid.priority == u64::MAX
    &&& valid.requires@.len() == 0
    &&& valid.provides@.len() == 1
    &&& valid.provides@[0]@ == provided_tag(
        spec_tag_prefix(kind),
        time_slot.session_index,
        time_slot.candidate_hash,
        validator_id,
    )
    &&& valid.longevity == longevity
    &&& !valid.propagate
}

/// The lengths of the two prefixes, in bytes.
pub proof fn lemma_tag_prefix_lengths()
    ensures
        spec_tag_prefix(SlashingOffenceKind::ForInvalid).spec_bytes().len() == 17,
        spec_tag_prefix(SlashingOffenceKind::AgainstValid).spec_bytes().len() == 19,
{
    broadcast use vstd::string::is_ascii_spec_bytes;

    reveal_strlit("DisputeForInvalid");
    reveal_strlit("DisputeAgainstValid");
    assert(vstd::string::is_ascii("DisputeForInvalid"));
    assert(vstd::string::is_ascii("DisputeAgainstValid"));
}

/// A tag names one report: two reports have the same tag only if they are of
/// the same kind and about the same dispute and the same validator. So the
/// pool, which keeps one transaction per tag, keeps one report per offender
/// and dispute, and drops no report for the sake of another.
pub proof fn lemma_tag_names_one_report(
    kind: SlashingOffenceKind,
    time_slot: DisputesTimeSlot,
    validator_id: ValidatorId,
    other_kind: SlashingOffenceKind,
    other_time_slot: DisputesTimeSlot,
    other_validator_id: ValidatorId,
)
    requires
        provided_tag(
            spec_tag_prefix(kind),
            time_slot.session_index,
            time_slot.candidate_hash,
            validator_id,
        ) == provided_tag(
            spec_tag_prefix(other_kind),
            other_time_slot.session_index,
            other_time_slot.candidate_hash,
            other_validator_id,
        ),
    ensures
        kind == other_kind,
        time_slot == other_time_slot,
        validator_id == other_validator_id,
{
    lemma_tag_prefix_lengths();
    vstd::bytes::lemma_auto_spec_u32_to_from_le_bytes();
    let prefix = spec_tag_prefix(kind).spec_bytes();
    let other_prefix = spec_tag_prefix(other_kind).spec_bytes();
    let session = spec_u32_to_le_bytes(time_slot.session_index);
    let other_session = spec_u32_to_le_bytes(other_time_slot.session_index);
    let hash = time_slot.candidate_hash.0@;
    let other_hash = other_time_slot.candidate_hash.0@;
    let id = validator_id.0@;
    let other_id = other_validator_id.0@;
    let tag = seq![(4 * prefix.len()) as u8] + prefix + session + hash + id;
    let other_tag = seq![(4 * other_prefix.len()) as u8] + other_prefix + other_session
        + other_hash + other_id;
    assert(tag == other_tag);
    assert(tag[0] == (4 * prefix.len()) as u8);
    assert(other_tag[0] == (4 * other_prefix.len()) as u8);
    assert(kind == other_kind);
    let n: int = prefix.len() as int;
    assert forall|i: int| 0 <= i < 4 implies session[i] == other_session[i] by {
        assert(tag[1 + n + i] == session[i]);
        assert(other_tag[1 + n + i] == other_session[i]);
    }
    assert(session =~= other_session);
    assert(time_slot.session_index == other_time_slot.session_index) by {
        assert(vstd::bytes::spec_u32_from_le_bytes(session) == time_slot.session_index);
        assert(vstd::bytes::spec_u32_from_le_bytes(other_session)
            == other_time_slot.session_index);
    }
    assert forall|i: int| 0 <= i < 32 implies hash[i] == other_hash[i] by {
        assert(tag[1 + n + 4 + i] == hash[i]);
        assert(other_tag[1 + n + 4 + i] == other_hash[i]);
    }
    assert(time_slot.candidate_hash.0 =~= other_time_slot.candidate_hash.0);
    assert forall|i: int| 0 <= i < 32 implies id[i] == other_id[i] by {
        assert(tag[1 + n + 4 + 32 + i] == id[i]);
        assert(other_tag[1 + n + 4 + 32 + i] == other_id[i]);
    }
    assert(validator_id.0 =~= other_validator_id.0);
}

/// Builds the record with `sp_runtime`'s `ValidTransaction::with_tag_prefix`
/// and the builder's `priority`, `and_provides`, `longevity` and `propagate`.
///
/// The builder starts without tags, sets the three fields as given, and
/// pushes one provided tag: the SCALE encoding of the prefix paired with
/// `((session_index, candidate_hash), validator_id)`. A string is encoded as
/// its length in compact form, one byte of four times the length while that
/// is under 64, and its bytes; the integer as four bytes, low byte first; the
/// two arrays as they are.
#[verifier::external_body]
fn build_valid_transaction(
    prefix: &'static str,
    priority: TransactionPriority,
    session_index: SessionIndex,
    candidate_hash: &CandidateHash,
    validator_id: &ValidatorId,
    longevity: TransactionLongevity,
    propagate: bool,
) -> (valid: ValidTransaction)
    requires
        prefix.spec_bytes().len() < 64,
    ensures
        valid.priority == priority,
        valid.requires@.len() == 0,
        valid.provides@.len() == 1,
        valid.provides@[0]@ == provided_tag(prefix, session_index, *candidate_hash, *validator_id),
        valid.longevity == longevity,
        valid.propagate == propagate,
{
    let built: sp_runtime::transaction_validity::ValidTransaction =
        sp_runtime::transaction_validity::ValidTransaction::with_tag_prefix(prefix)
        .priority(priority)
        .and_provides(((session_index, candidate_hash.0), validator_id.0))
        .longevity(longevity)
        .propagate(propagate)
        .into();
    ValidTransaction {
        priority: built.priority,
        requires: built.requires,
        provides: built.provides,
        longevity: built.longevity,
        propagate: built.propagate,
    }
}

/// The prefix of the tags of this kind of report, which keeps the tags of the
/// two kinds apart.
pub fn tag_prefix(kind: SlashingOffenceKind) -> (prefix: &'static str)
    ensures
        prefix == spec_tag_prefix(kind),
        prefix.spec_bytes().len() < 64,
{
    proof {
        lemma_tag_prefix_lengths();
    }
    match kind {
        SlashingOffenceKind::ForInvalid => "DisputeForInvalid",
        SlashingOffenceKind::AgainstValid => "DisputeAgainstValid",
    }
}

/// What the pool is told about an admitted report of `validator_id` for the
/// dispute `time_slot`.
///
/// Reports are critical for safety, so they go before every other
/// transaction. The tag lets the pool keep one report per offender and
/// dispute. The report is never sent on: it is included by the node that made
/// it.
pub fn valid_report(
    kind: SlashingOffenceKind,
    time_slot: &DisputesTimeSlot,
    validator_id: &ValidatorId,
    longevity: TransactionLongevity,
) -> (valid: ValidTransaction)
    ensures
        admits_report(valid, kind, *time_slot, *validator_id, longevity),
{
    build_valid_transaction(
        tag_prefix(kind),
        u64::MAX,
        time_slot.session_index,
        &time_slot.candidate_hash,
        validator_id,
        longevity,
        false,
    )
}

} // verus!
