//! The offence sink as the slashing logic sees it, and the cost of a report.
use crate::offence::{AgainstValidOffence, ForInvalidOffence, OffenceView};
use crate::pallet::DisputeProof;
use crate::primitives::Weight;
use crate::time_slot::DisputesTimeSlot;
use sp_runtime::DispatchError;
use sp_staking::offence::OffenceError;
use vstd::prelude::*;

verus! {

/// `sp_staking::offence::OffenceError`: why the offence sink turned a report
/// down. The value is carried as it is; nothing is read from it.
#[verifier::external_type_specification]
#[verifier::external_body]
pub struct ExOffenceError(OffenceError);

/// `sp_runtime::DispatchError`: why a call could not be dispatched. The value
/// is carried as it is; nothing is read from it.
#[verifier::external_type_specification]
#[verifier::external_body]
pub struct ExDispatchError(DispatchError);

/// Where validated reports go: the subsystem that slashes and disables the
/// offenders, and that sends reports in from an offchain context.
///
/// `A` identifies the accounts that are credited for a report, `I` the
/// offenders, and `P` is the proof of key ownership that a report carries.
///
/// The `spec_` functions stand for what the sink answers in the state it is
/// in, so that what is said of the slashing logic can speak of these answers.
/// A sink that is verified says what they are; of any other they are taken
/// to be what it answers.
pub trait HandleReports<A, I, P> {
    /// The answer of `report_longevity`.
    open spec fn spec_report_longevity(&self) -> u64 {
        arbitrary()
    }

    /// The answer of `is_known_for_invalid_offence`.
    open spec fn spec_is_known_for_invalid_offence(
        &self,
        offenders: Seq<I>,
        time_slot: DisputesTimeSlot,
    ) -> bool {
        arbitrary()
    }

    /// The answer of `is_known_against_valid_offence`.
    open spec fn spec_is_known_against_valid_offence(
        &self,
        offenders: Seq<I>,
        time_slot: DisputesTimeSlot,
    ) -> bool {
        arbitrary()
    }

    /// What sending a report in does: whether `after` is the sink that `self`
    /// becomes when the report is handed over and is sent or not. A sink that
    /// says nothing here allows every outcome.
    open spec fn submitted(
        &self,
        after: &Self,
        dispute_proof: DisputeProof,
        key_owner_proof: P,
        sent: bool,
    ) -> bool {
        true
    }

    /// Whether the sink takes `offence` when it is reported with
    /// `reporters`: the answer of `report_for_invalid_offence` or of
    /// `report_against_valid_offence`, whichever the kind of the offence
    /// asks for.
    open spec fn spec_accepts(&self, reporters: Seq<A>, offence: OffenceView<I>) -> bool {
        arbitrary()
    }

    /// What a report does: whether `after` is the sink that `self` becomes
    /// when `offence` is reported to it with `reporters`. A sink that says
    /// nothing here allows every change.
    open spec fn reported(&self, after: &Self, reporters: Seq<A>, offence: OffenceView<I>) -> bool {
        true
    }

    /// The number of blocks for which a report stays valid: as long as the
    /// offender can still be slashed.
    fn report_longevity(&self) -> (blocks: u64)
        ensures
            blocks == self.spec_report_longevity(),
    ;

    /// Reports the offence of validators that voted for an invalid candidate.
    fn report_for_invalid_offence(
        &mut self,
        reporters: Vec<A>,
        offence: ForInvalidOffence<I>,
    ) -> (outcome: Result<(), OffenceError>)
        ensures
            outcome is Ok == old(self).spec_accepts(reporters@, offence@),
            old(self).reported(final(self), reporters@, offence@),
    ;

    /// Reports the offence of validators that voted against a valid candidate.
    fn report_against_valid_offence(
        &mut self,
        reporters: Vec<A>,
        offence: AgainstValidOffence<I>,
    ) -> (outcome: Result<(), OffenceError>)
        ensures
            outcome is Ok == old(self).spec_accepts(reporters@, offence@),
            old(self).reported(final(self), reporters@, offence@),
    ;

    /// Whether all of `offenders` are known already for a vote for an invalid
    /// candidate in the dispute `time_slot`.
    fn is_known_for_invalid_offence(&self, offenders: &[I], time_slot: &DisputesTimeSlot) -> (known:
        bool)
        ensures
            known == self.spec_is_known_for_invalid_offence(offenders@, *time_slot),
    ;

    /// Whether all of `offenders` are known already for a vote against a
    /// valid candidate in the dispute `time_slot`.
    fn is_known_against_valid_offence(
        &self,
        offenders: &[I],
        time_slot: &DisputesTimeSlot,
    ) -> (known: bool)
        ensures
            known == self.spec_is_known_against_valid_offence(offenders@, *time_slot),
    ;

    /// Makes a report of a lost dispute and sends it in as an unsigned
    /// transaction. This is called from an offchain context.
    fn submit_unsigned_slashing_report(
        &mut self,
        dispute_proof: DisputeProof,
        key_owner_proof: P,
    ) -> (outcome: Result<(), DispatchError>)
        ensures
            old(self).submitted(final(self), dispute_proof, key_owner_proof, outcome is Ok),
    ;
}

/// The sink that handles nothing: it accepts every report, takes every
/// offence as known, and keeps reports valid for no block.
impl<A, I, P> HandleReports<A, I, P> for () {
    open spec fn spec_report_longevity(&self) -> u64 {
        0
    }

    open spec fn spec_is_known_for_invalid_offence(
        &self,
        offenders: Seq<I>,
        time_slot: DisputesTimeSlot,
    ) -> bool {
        true
    }

    open spec fn spec_is_known_against_valid_offence(
        &self,
        offenders: Seq<I>,
        time_slot: DisputesTimeSlot,
    ) -> bool {
        true
    }

    open spec fn submitted(
        &self,
        after: &Self,
        dispute_proof: DisputeProof,
        key_owner_proof: P,
        sent: bool,
    ) -> bool {
        sent
    }

    open spec fn spec_accepts(&self, reporters: Seq<A>, offence: OffenceView<I>) -> bool {
        true
    }

    fn report_longevity(&self) -> (blocks: u64) {
        0
    }

    fn report_for_invalid_offence(
        &mut self,
        reporters: Vec<A>,
        offence: ForInvalidOffence<I>,
    ) -> (outcome: Result<(), OffenceError>) {
        Ok(())
    }

    fn report_against_valid_offence(
        &mut self,
        reporters: Vec<A>,
        offence: AgainstValidOffence<I>,
    ) -> (outcome: Result<(), OffenceError>) {
        Ok(())
    }

    fn is_known_for_invalid_offence(&self, offenders: &[I], time_slot: &DisputesTimeSlot) -> (known:
        bool) {
        true
    }

    fn is_known_against_valid_offence(
        &self,
        offenders: &[I],
        time_slot: &DisputesTimeSlot,
    ) -> (known: bool) {
        true
    }

    fn submit_unsigned_slashing_report(
        &mut self,
        dispute_proof: DisputeProof,
        key_owner_proof: P,
    ) -> (outcome: Result<(), DispatchError>) {
        Ok(())
    }
}

/// What a report of a lost dispute costs.
pub trait WeightInfo {
    /// The answer of `report_dispute_lost`.
    open spec fn spec_report_dispute_lost(validator_count: u32) -> Weight {
        arbitrary()
    }

    /// The cost of a report whose proof of key ownership is about a set of
    /// `validator_count` validators.
    fn report_dispute_lost(validator_count: u32) -> (weight: Weight)
        ensures
            weight == Self::spec_report_dispute_lost(validator_count),
    ;
}

/// Weights for tests: every report is free.
pub struct TestWeightInfo;

impl WeightInfo for TestWeightInfo {
    open spec fn spec_report_dispute_lost(validator_count: u32) -> Weight {
        0
    }

    fn report_dispute_lost(validator_count: u32) -> (weight: Weight) {
        0
    }
}

} // verus!
