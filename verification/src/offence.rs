//! The offences that a lost dispute gives rise to, and how severe each kind is.
use crate::primitives::{CandidateHash, SessionIndex};
use crate::time_slot::DisputesTimeSlot;
use vstd::prelude::*;

verus! {

/// The two ways to lose a dispute.
#[derive(Clone, Copy, Debug, PartialEq, Eq, Hash, Structural)]
pub enum SlashingOffenceKind {
    /// The validator voted that an invalid candidate was valid.
    ForInvalid,
    /// The validator voted that a valid candidate was invalid.
    AgainstValid,
}

/// When the offence sink takes an offender out of the active set.
#[derive(Clone, Copy, Debug, PartialEq, Eq, Hash, Structural)]
pub enum DisableStrategy {
    /// The offender stays in the active set.
    Never,
    /// The offender is disabled if the slash is more than nothing.
    WhenSlashed,
    /// The offender is disabled whatever the slash.
    Always,
}

/// Sixteen bytes that name a kind of offence to the offence sink.
pub type Kind = [u8; 16];

/// The parts of a billion that make up the whole.
pub const BILLION: u32 = 1_000_000_000;

/// A fraction, counted in parts of a billion.
#[derive(Clone, Copy, Debug, PartialEq, Eq, Hash, Structural)]
pub struct Perbill {
    parts: u32,
}

/// The parts of a billion that `percent` hundredths are; more than a hundred
/// hundredths count as the whole.
pub open spec fn percent_parts(percent: u32) -> u32 {
    if percent >= 100 {
        BILLION
    } else {
        (percent * 10_000_000) as u32
    }
}

/// Calls `sp_runtime::Perbill::from_percent` and reads the fraction back with
/// `deconstruct`. The outside function caps `percent` at one hundred and gives
/// ten million parts for each hundredth.
#[verifier::external_body]
fn perbill_parts_of_percent(percent: u32) -> (parts: u32)
    ensures
        parts == percent_parts(percent),
{
    sp_runtime::Perbill::from_percent(percent).deconstruct()
}

impl Perbill {
    /// The parts of a billion that this fraction holds.
    pub closed spec fn parts(self) -> u32 {
        self.parts
    }

    /// `percent` hundredths, at most the whole.
    pub fn from_percent(percent: u32) -> (fraction: Self)
        ensures
            fraction.parts() == percent_parts(percent),
    {
        Perbill { parts: perbill_parts_of_percent(percent) }
    }

    /// The parts of a billion that this fraction holds.
    pub fn deconstruct(self) -> (parts: u32)
        ensures
            parts == self.parts(),
    {
        self.parts
    }
}

impl SlashingOffenceKind {
    /// The share of the offender's stake that an offence of this kind costs.
    pub open spec fn severity(self) -> u32 {
        match self {
            SlashingOffenceKind::ForInvalid => percent_parts(100),
            SlashingOffenceKind::AgainstValid => percent_parts(1),
        }
    }

    /// Whether an offence of this kind disables the offender.
    pub open spec fn disabling(self) -> DisableStrategy {
        match self {
            SlashingOffenceKind::ForInvalid => DisableStrategy::Always,
            SlashingOffenceKind::AgainstValid => DisableStrategy::Never,
        }
    }

    /// The share of the offender's stake that an offence of this kind costs:
    /// all of it for a vote for an invalid candidate, a hundredth for a vote
    /// against a valid one.
    pub fn slash_fraction(self) -> (fraction: Perbill)
        ensures
            fraction.parts() == self.severity(),
            self == SlashingOffenceKind::ForInvalid ==> fraction.parts() == 1_000_000_000,
            self == SlashingOffenceKind::AgainstValid ==> fraction.parts() == 10_000_000,
    {
        match self {
            SlashingOffenceKind::ForInvalid => Perbill::from_percent(100),
            SlashingOffenceKind::AgainstValid => Perbill::from_percent(1),
        }
    }

    /// Whether an offence of this kind disables the offender: always for a vote
    /// for an invalid candidate, never for a vote against a valid one.
    pub fn disable_strategy(self) -> (strategy: DisableStrategy)
        ensures
            strategy == self.disabling(),
    {
        match self {
            SlashingOffenceKind::ForInvalid => DisableStrategy::Always,
            SlashingOffenceKind::AgainstValid => DisableStrategy::Never,
        }
    }
}

/// What an offence says, whichever kind it is of.
pub struct OffenceView<Offender> {
    /// The kind of the offence.
    pub kind: SlashingOffenceKind,
    /// The size of the validator set in the session of the dispute.
    pub validator_set_count: u32,
    /// The dispute.
    pub time_slot: DisputesTimeSlot,
    /// Who is to be slashed.
    pub offenders: Seq<Offender>,
}

impl<Offender> OffenceView<Offender> {
    /// The share of the stake that each offender loses, in parts of a billion.
    pub open spec fn slash_fraction(self) -> u32 {
        self.kind.severity()
    }

    /// Whether the offenders are disabled.
    pub open spec fn disable_strategy(self) -> DisableStrategy {
        self.kind.disabling()
    }
}

/// The offence of the validators that lost a dispute about an invalid
/// candidate.
#[derive(Debug, PartialEq, Eq)]
pub struct ForInvalidOffence<KeyOwnerIdentification> {
    /// The size of the validator set in that session, parachain validators or
    /// not.
    pub validator_set_count: u32,
    /// The dispute; no two offences of this kind share it.
    pub time_slot: DisputesTimeSlot,
    /// Who is to be slashed, identified for the staking system.
    pub offenders: Vec<KeyOwnerIdentification>,
}

/// The offence of the validators that lost a dispute about a valid candidate.
#[derive(Debug, PartialEq, Eq)]
pub struct AgainstValidOffence<KeyOwnerIdentification> {
    /// The size of the validator set in that session, parachain validators or
    /// not.
    pub validator_set_count: u32,
    /// The dispute; no two offences of this kind share it.
    pub time_slot: DisputesTimeSlot,
    /// Who is to be slashed, identified for the staking system.
    pub offenders: Vec<KeyOwnerIdentification>,
}

impl<Offender> View for ForInvalidOffence<Offender> {
    type V = OffenceView<Offender>;

    open spec fn view(&self) -> OffenceView<Offender> {
        OffenceView {
            kind: SlashingOffenceKind::ForInvalid,
            validator_set_count: self.validator_set_count,
            time_slot: self.time_slot,
            offenders: self.offenders@,
        }
    }
}

impl<Offender> View for AgainstValidOffence<Offender> {
    type V = OffenceView<Offender>;

    open spec fn view(&self) -> OffenceView<Offender> {
        OffenceView {
            kind: SlashingOffenceKind::AgainstValid,
            validator_set_count: self.validator_set_count,
            time_slot: self.time_slot,
            offenders: self.offenders@,
        }
    }
}

impl<Offender> ForInvalidOffence<Offender> {
    /// The offence of one `offender` in the dispute about `candidate_hash`.
    pub fn new(
        session_index: SessionIndex,
        candidate_hash: CandidateHash,
        validator_set_count: u32,
        offender: Offender,
    ) -> (offence: Self)
        ensures
            offence.validator_set_count == validator_set_count,
            offence.time_slot.session_index == session_index,
            offence.time_slot.candidate_hash == candidate_hash,
            offence.offenders@ == seq![offender],
    {
        let time_slot = DisputesTimeSlot::new(session_index, candidate_hash);
        let mut offenders = Vec::new();
        offenders.push(offender);
        Self { time_slot, validator_set_count, offenders }
    }

    /// The name of this kind of offence: the bytes of `disputes:invalid`.
    pub fn id() -> (id: Kind)
        ensures
            id@ == seq![
                100u8, 105u8, 115u8, 112u8, 117u8, 116u8, 101u8, 115u8, 58u8, 105u8, 110u8, 118u8,
                97u8, 108u8, 105u8, 100u8,
            ],
    {
        [100, 105, 115, 112, 117, 116, 101, 115, 58, 105, 110, 118, 97, 108, 105, 100]
    }

    /// Who is to be slashed.
    pub fn offenders(&self) -> (offenders: &Vec<Offender>)
        ensures
            offenders@ == self.offenders@,
    {
        &self.offenders
    }

    /// The session of the dispute.
    pub fn session_index(&self) -> (session_index: SessionIndex)
        ensures
            session_index == self.time_slot.session_index,
    {
        self.time_slot.session_index
    }

    /// The size of the validator set in the session of the dispute.
    pub fn validator_set_count(&self) -> (count: u32)
        ensures
            count == self.validator_set_count,
    {
        self.validator_set_count
    }

    /// The dispute.
    pub fn time_slot(&self) -> (slot: DisputesTimeSlot)
        ensures
            slot == self.time_slot,
    {
        self.time_slot
    }

    /// Offenders of this kind are always disabled.
    pub fn disable_strategy(&self) -> (strategy: DisableStrategy)
        ensures
            strategy == DisableStrategy::Always,
            strategy == SlashingOffenceKind::ForInvalid.disabling(),
    {
        SlashingOffenceKind::ForInvalid.disable_strategy()
    }

    /// Offenders of this kind lose their whole stake, however many they are
    /// and however large the validator set is.
    pub fn slash_fraction(offenders: u32, validator_set_count: u32) -> (fraction: Perbill)
        ensures
            fraction.parts() == 1_000_000_000,
            fraction.parts() == SlashingOffenceKind::ForInvalid.severity(),
    {
        SlashingOffenceKind::ForInvalid.slash_fraction()
    }
}

impl<Offender> AgainstValidOffence<Offender> {
    /// The offence of one `offender` in the dispute about `candidate_hash`.
    pub fn new(
        session_index: SessionIndex,
        candidate_hash: CandidateHash,
        validator_set_count: u32,
        offender: Offender,
    ) -> (offence: Self)
        ensures
            offence.validator_set_count == validator_set_count,
            offence.time_slot.session_index == session_index,
            offence.time_slot.candidate_hash == candidate_hash,
            offence.offenders@ == seq![offender],
    {
        let time_slot = DisputesTimeSlot::new(session_index, candidate_hash);
        let mut offenders = Vec::new();
        offenders.push(offender);
        Self { time_slot, validator_set_count, offenders }
    }

    /// The name of this kind of offence: the bytes of `disputes:valid::`.
    pub fn id() -> (id: Kind)
        ensures
            id@ == seq![
                100u8, 105u8, 115u8, 112u8, 117u8, 116u8, 101u8, 115u8, 58u8, 118u8, 97u8, 108u8,
                105u8, 100u8, 58u8, 58u8,
            ],
    {
        [100, 105, 115, 112, 117, 116, 101, 115, 58, 118, 97, 108, 105, 100, 58, 58]
    }

    /// Who is to be slashed.
    pub fn offenders(&self) -> (offenders: &Vec<Offender>)
        ensures
            offenders@ == self.offenders@,
    {
        &self.offenders
    }

    /// The session of the dispute.
    pub fn session_index(&self) -> (session_index: SessionIndex)
        ensures
            session_index == self.time_slot.session_index,
    {
        self.time_slot.session_index
    }

    /// The size of the validator set in the session of the dispute.
    pub fn validator_set_count(&self) -> (count: u32)
        ensures
            count == self.validator_set_count,
    {
        self.validator_set_count
    }

    /// The dispute.
    pub fn time_slot(&self) -> (slot: DisputesTimeSlot)
        ensures
            slot == self.time_slot,
    {
        self.time_slot
    }

    /// Offenders of this kind are never disabled.
    pub fn disable_strategy(&self) -> (strategy: DisableStrategy)
        ensures
            strategy == DisableStrategy::Never,
            strategy == SlashingOffenceKind::AgainstValid.disabling(),
    {
        SlashingOffenceKind::AgainstValid.disable_strategy()
    }

    /// Offenders of this kind lose a hundredth of their stake, however many
    /// they are and however large the validator set is.
    pub fn slash_fraction(offenders: u32, validator_set_count: u32) -> (fraction: Perbill)
        ensures
            fraction.parts() == 10_000_000,
            fraction.parts() == SlashingOffenceKind::AgainstValid.severity(),
    {
        SlashingOffenceKind::AgainstValid.slash_fraction()
    }
}

} // verus!
