//! Reports of lost disputes: what they are, how they are admitted, and what
//! accepting one does.
use crate::error::Error;
use crate::ledger::{
    keys_of_session, take_loser_from, winners_at, winners_key, Ledger, Pending, SlashKey,
    WinnersLookup,
};
use crate::offence::{AgainstValidOffence, ForInvalidOffence, OffenceView, SlashingOffenceKind};
use crate::primitives::{
    BlockNumber, KeyTypeId, Pays, SessionChangeNotification, SessionIndex, SessionInfo,
    SessionInfoView, ValidatorId, ValidatorIndex, Weight, PARACHAIN_KEY_TYPE_ID, validator_is_at,
};
use crate::reports::{HandleReports, TestWeightInfo, WeightInfo};
use crate::time_slot::DisputesTimeSlot;
use crate::validity::{
    admission, admits_report, staleness, valid_report, InvalidTransaction, TransactionSource,
    TransactionValidity, ValidTransaction,
};
use sp_staking::offence::OffenceError;
use vstd::prelude::*;

verus! {

/// What identifies one loser of a dispute.
///
/// Most of what is known about a lost dispute is kept in the ledger. This is
/// what a report has to bring to find it there and to check it.
#[derive(Clone, Copy, Debug, Eq, Hash)]
pub struct DisputeProof {
    /// The session and the candidate of the dispute.
    pub time_slot: DisputesTimeSlot,
    /// Which way the dispute was lost.
    pub kind: SlashingOffenceKind,
    /// The index of the loser in the validator list of the session.
    pub validator_index: ValidatorIndex,
    /// The session key of the loser.
    pub validator_id: ValidatorId,
}

impl PartialEq for DisputeProof {
    fn eq(&self, other: &Self) -> (same: bool) {
        self.time_slot == other.time_slot && self.kind == other.kind && self.validator_index
            == other.validator_index && self.validator_id == other.validator_id
    }
}

impl vstd::std_specs::cmp::PartialEqSpecImpl for DisputeProof {
    open spec fn obeys_eq_spec() -> bool {
        true
    }

    open spec fn eq_spec(&self, other: &Self) -> bool {
        *self == *other
    }
}

impl DisputeProof {
    /// The key of the ledger entry that holds the loser.
    pub open spec fn spec_key(&self) -> SlashKey {
        SlashKey {
            kind: self.kind,
            session_index: self.time_slot.session_index,
            candidate_hash: self.time_slot.candidate_hash,
        }
    }

    /// Checks the report against the record of its session: the session has
    /// to be on record, and the validator index has to name the validator's
    /// key there. The answer is the size of the validator set of the
    /// session, parachain validators or not.
    pub fn check_session(&self, info: &Option<SessionInfo>) -> (validator_set_count: Result<
        u32,
        Error,
    >)
        ensures
            validator_set_count == checked_session(
                *self,
                match info {
                    Some(info) => Some(info@),
                    None => None,
                },
            ),
    {
        match info {
            Some(info) => {
                if !info.has_validator(self.validator_index, &self.validator_id) {
                    return Err(Error::ValidatorIndexIdMismatch);
                }
                Ok(info.total_validator_count)
            },
            None => Err(Error::InvalidSessionIndex),
        }
    }

    /// The key of the ledger entry that holds the loser.
    pub fn key(&self) -> (key: SlashKey)
        ensures
            key == self.spec_key(),
    {
        SlashKey {
            kind: self.kind,
            session_index: self.time_slot.session_index,
            candidate_hash: self.time_slot.candidate_hash,
        }
    }
}

/// The calls that the slashing logic takes.
#[allow(non_camel_case_types)]
#[derive(Debug, PartialEq, Eq)]
pub enum Call<P> {
    /// Reports one loser of a dispute. The call is unsigned and free.
    report_dispute_lost_unsigned {
        /// Which loser of which dispute.
        dispute_proof: Box<DisputeProof>,
        /// The proof that the loser's session key belongs to an account.
        key_owner_proof: P,
    },
}

/// What the slashing logic takes from the chain around it: the records of
/// the sessions, the identification of validators, the check of proofs of
/// key ownership, and the dispute period.
///
/// The `spec_` functions stand for what the chain answers in the state it is
/// in, so that what is said of the slashing logic can speak of these answers.
/// A chain that is verified says what they are; of any other they are taken
/// to be what it answers.
pub trait Config {
    /// The account behind a session key.
    type AccountId: Copy;

    /// What proves that a session key belongs to an account.
    type KeyOwnerProof;

    /// What identifies an offender to the offence sink.
    type KeyOwnerIdentification;

    /// The offence sink.
    type HandleReports: HandleReports<
        Self::AccountId,
        Self::KeyOwnerIdentification,
        Self::KeyOwnerProof,
    >;

    /// What the calls cost.
    type WeightInfo: WeightInfo;

    /// The answer of `current_session_index`.
    open spec fn spec_current_session_index(&self) -> SessionIndex {
        arbitrary()
    }

    /// The answer of `account_keys`.
    open spec fn spec_account_keys(&self, session_index: SessionIndex) -> Option<
        Seq<Self::AccountId>,
    > {
        arbitrary()
    }

    /// The answer of `session_info`.
    open spec fn spec_session_info(&self, session_index: SessionIndex) -> Option<SessionInfoView> {
        arbitrary()
    }

    /// The answer of `identification_of`.
    open spec fn spec_identification_of(&self, account: Self::AccountId) -> Option<
        Self::KeyOwnerIdentification,
    > {
        arbitrary()
    }

    /// The answer of `check_proof`.
    open spec fn spec_check_proof(
        &self,
        key: (KeyTypeId, ValidatorId),
        proof: Self::KeyOwnerProof,
    ) -> Option<Self::KeyOwnerIdentification> {
        arbitrary()
    }

    /// The answer of `dispute_period`.
    open spec fn spec_dispute_period(&self) -> SessionIndex {
        arbitrary()
    }

    /// The answer of `validator_count`.
    open spec fn spec_validator_count(proof: Self::KeyOwnerProof) -> u32 {
        arbitrary()
    }

    /// The session whose validators can be identified without a proof.
    fn current_session_index(&self) -> (now: SessionIndex)
        ensures
            now == self.spec_current_session_index(),
    ;

    /// The accounts of the validators of a session, by validator index, or
    /// nothing where the session is not on record.
    fn account_keys(&self, session_index: SessionIndex) -> (keys: Option<Vec<Self::AccountId>>)
        ensures
            match keys {
                Some(keys) => self.spec_account_keys(session_index) == Some(keys@),
                None => self.spec_account_keys(session_index) is None,
            },
    ;

    /// What is on record about a session, or nothing where it is not on
    /// record.
    fn session_info(&self, session_index: SessionIndex) -> (info: Option<SessionInfo>)
        ensures
            match info {
                Some(info) => self.spec_session_info(session_index) == Some(info@),
                None => self.spec_session_info(session_index) is None,
            },
    ;

    /// The identification of an account of the current session, or nothing
    /// where the account has none.
    fn identification_of(&self, account: &Self::AccountId) -> (identification: Option<
        Self::KeyOwnerIdentification,
    >)
        ensures
            identification == self.spec_identification_of(*account),
    ;

    /// Checks a proof that the session key `key.1`, of the key type `key.0`,
    /// belongs to an account, and identifies the owner if it holds.
    fn check_proof(&self, key: (KeyTypeId, ValidatorId), proof: &Self::KeyOwnerProof) -> (owner:
        Option<Self::KeyOwnerIdentification>)
        ensures
            owner == self.spec_check_proof(key, *proof),
    ;

    /// The number of sessions for which a dispute can be raised, and a loser
    /// slashed, after the session of the candidate.
    fn dispute_period(&self) -> (sessions: SessionIndex)
        ensures
            sessions == self.spec_dispute_period(),
    ;

    /// The size of the validator set that a proof of key ownership is about.
    fn validator_count(proof: &Self::KeyOwnerProof) -> (count: u32)
        ensures
            count == Self::spec_validator_count(*proof),
    ;
}

/// The chain on which nothing is on record: no session is known, no account
/// has an identification, and no proof of key ownership holds. On it no
/// dispute is punished and every report is turned down.
impl Config for () {
    type AccountId = u64;

    type KeyOwnerProof = ();

    type KeyOwnerIdentification = ();

    type HandleReports = ();

    type WeightInfo = TestWeightInfo;

    open spec fn spec_current_session_index(&self) -> SessionIndex {
        0
    }

    open spec fn spec_account_keys(&self, session_index: SessionIndex) -> Option<Seq<u64>> {
        None
    }

    open spec fn spec_session_info(&self, session_index: SessionIndex) -> Option<SessionInfoView> {
        None
    }

    open spec fn spec_identification_of(&self, account: u64) -> Option<()> {
        None
    }

    open spec fn spec_check_proof(&self, key: (KeyTypeId, ValidatorId), proof: ()) -> Option<()> {
        None
    }

    open spec fn spec_dispute_period(&self) -> SessionIndex {
        0
    }

    open spec fn spec_validator_count(proof: ()) -> u32 {
        0
    }

    fn current_session_index(&self) -> (now: SessionIndex) {
        0
    }

    fn account_keys(&self, session_index: SessionIndex) -> (keys: Option<Vec<u64>>) {
        None
    }

    fn session_info(&self, session_index: SessionIndex) -> (info: Option<SessionInfo>) {
        None
    }

    fn identification_of(&self, account: &u64) -> (identification: Option<()>) {
        None
    }

    fn check_proof(&self, key: (KeyTypeId, ValidatorId), proof: &()) -> (owner: Option<()>) {
        None
    }

    fn dispute_period(&self) -> (sessions: SessionIndex) {
        0
    }

    fn validator_count(proof: &()) -> (count: u32) {
        0
    }
}

/// What the record of the session of a report says about it: the reason to
/// reject the report, or the size of the validator set of the session.
pub open spec fn checked_session(proof: DisputeProof, info: Option<SessionInfoView>) -> Result<
    u32,
    Error,
> {
    match info {
        None => Err(Error::InvalidSessionIndex),
        Some(info) => if validator_is_at(
            info.validators,
            proof.validator_index,
            proof.validator_id,
        ) {
            Ok(info.total_validator_count)
        } else {
            Err(Error::ValidatorIndexIdMismatch)
        },
    }
}

/// What the checks of a report find before the ledger is asked: the reason
/// to reject it, or the size of the validator set of the session.
pub open spec fn checked_report<I>(
    proof: DisputeProof,
    owner: Option<I>,
    info: Option<SessionInfoView>,
) -> Result<u32, Error> {
    if owner is None {
        Err(Error::InvalidKeyOwnershipProof)
    } else {
        checked_session(proof, info)
    }
}

/// What becomes of the ledger when a report is accepted, or the reason to
/// reject the report, where `owner` is what the check of the proof of key
/// ownership gave and `info` what is on record about the session.
pub open spec fn report_outcome<A, I>(
    ledger: Map<SlashKey, Pending<A>>,
    proof: DisputeProof,
    owner: Option<I>,
    info: Option<SessionInfoView>,
) -> Result<Map<SlashKey, Pending<A>>, Error> {
    match checked_report(proof, owner, info) {
        Err(reason) => Err(reason),
        Ok(_) => take_loser_from(ledger, proof.spec_key(), proof.validator_index),
    }
}

/// The offence that an accepted report files: that of the one offender.
pub open spec fn deferred_offence<I>(
    proof: DisputeProof,
    validator_set_count: u32,
    offender: I,
) -> OffenceView<I> {
    OffenceView {
        kind: proof.kind,
        validator_set_count,
        time_slot: proof.time_slot,
        offenders: seq![offender],
    }
}

/// The session whose entries go when session `new_session` begins: the one
/// that has then been over for more than `dispute_period` sessions.
pub open spec fn session_to_prune(new_session: SessionIndex, dispute_period: SessionIndex) -> Option<
    SessionIndex,
> {
    if new_session <= dispute_period + 1 {
        None
    } else {
        Some((new_session - dispute_period - 1) as SessionIndex)
    }
}

/// The ledger after the entries of the session that `new_session` makes stale
/// have gone.
pub open spec fn pruned<A>(
    ledger: Map<SlashKey, Pending<A>>,
    new_session: SessionIndex,
    dispute_period: SessionIndex,
) -> Map<SlashKey, Pending<A>> {
    match session_to_prune(new_session, dispute_period) {
        None => ledger,
        Some(old_session) => ledger.remove_keys(keys_of_session(old_session)),
    }
}

/// The entries that go when session `new_session` begins.
pub open spec fn dropped_by<A>(
    ledger: Map<SlashKey, Pending<A>>,
    new_session: SessionIndex,
    dispute_period: SessionIndex,
) -> Map<SlashKey, Pending<A>> {
    match session_to_prune(new_session, dispute_period) {
        None => Map::empty(),
        Some(old_session) => ledger.restrict(keys_of_session(old_session)),
    }
}

/// The slashing logic with its state: the ledger of pending slashes, and the
/// chain and the offence sink that it works with.
pub struct Pallet<T: Config> {
    /// The chain around the slashing logic.
    pub config: T,
    /// The offence sink.
    pub reports: T::HandleReports,
    /// The pending slashes.
    pub ledger: Ledger<T::AccountId>,
    /// Whose winners a report credits.
    pub winners_lookup: WinnersLookup,
}

impl<T: Config> Pallet<T> {
    /// Whether the ledger is well formed.
    pub open spec fn wf(&self) -> bool {
        self.ledger.wf()
    }

    /// What the checks of the admission gate find about a report: nothing
    /// where the proof of key ownership does not hold, else whether the
    /// offence sink knows the offence of that owner already.
    pub open spec fn spec_known_offence(
        &self,
        proof: DisputeProof,
        key_owner_proof: T::KeyOwnerProof,
    ) -> Option<bool> {
        match self.config.spec_check_proof(
            (PARACHAIN_KEY_TYPE_ID, proof.validator_id),
            key_owner_proof,
        ) {
            None => None,
            Some(offender) => Some(
                match proof.kind {
                    SlashingOffenceKind::ForInvalid => self.reports.spec_is_known_for_invalid_offence(
                        seq![offender],
                        proof.time_slot,
                    ),
                    SlashingOffenceKind::AgainstValid => self.reports.spec_is_known_against_valid_offence(
                        seq![offender],
                        proof.time_slot,
                    ),
                },
            ),
        }
    }

    /// The slashing logic with an empty ledger. Reports credit the winners
    /// kept for the dispute as one about an invalid candidate.
    pub fn new(config: T, reports: T::HandleReports) -> (pallet: Self)
        ensures
            pallet.wf(),
            pallet.config == config,
            pallet.reports == reports,
            pallet.ledger@ == Map::<SlashKey, Pending<T::AccountId>>::empty(),
            pallet.winners_lookup == WinnersLookup::ForInvalid,
    {
        Pallet { config, reports, ledger: Ledger::new(), winners_lookup: WinnersLookup::ForInvalid }
    }

    /// What the call answers once the offence sink has answered: the call is
    /// free where the sink took the report, and fails with
    /// `DuplicateSlashingReport` where it did not, whatever reason it gave.
    pub fn report_result(reported: Result<(), OffenceError>) -> (outcome: Result<Pays, Error>)
        ensures
            outcome == (if reported is Ok {
                Ok::<Pays, Error>(Pays::No)
            } else {
                Err::<Pays, Error>(Error::DuplicateSlashingReport)
            }),
    {
        match reported {
            Ok(()) => Ok(Pays::No),
            Err(_) => Err(Error::DuplicateSlashingReport),
        }
    }

    /// Accepts a report of a lost dispute: checks the proof of key
    /// ownership, checks that the validator index names the validator's key
    /// in the session of the dispute, takes the loser out of the ledger, and
    /// files the offence of that one offender, with the winners as
    /// reporters.
    ///
    /// The checks fail in this order: `InvalidKeyOwnershipProof`,
    /// `InvalidSessionIndex`, `ValidatorIndexIdMismatch`,
    /// `InvalidCandidateHash`, `InvalidValidatorIndex`. Until then nothing
    /// has changed. After them the loser has left the ledger, whatever the
    /// offence sink answers. The call is free where the sink takes the
    /// offence and fails with `DuplicateSlashingReport` where it does not,
    /// which the ledger rules out unless something else went wrong.
    pub fn report_dispute_lost_unsigned(
        &mut self,
        dispute_proof: Box<DisputeProof>,
        key_owner_proof: T::KeyOwnerProof,
    ) -> (outcome: Result<Pays, Error>)
        requires
            old(self).wf(),
        ensures
            final(self).wf(),
            final(self).config == old(self).config,
            final(self).winners_lookup == old(self).winners_lookup,
            ({
                let owner = old(self).config.spec_check_proof(
                    (PARACHAIN_KEY_TYPE_ID, dispute_proof.validator_id),
                    key_owner_proof,
                );
                let info = old(self).config.spec_session_info(dispute_proof.time_slot.session_index);
                match report_outcome(old(self).ledger@, *dispute_proof, owner, info) {
                    Err(reason) => {
                        &&& outcome == Err::<Pays, Error>(reason)
                        &&& final(self).ledger@ == old(self).ledger@
                        &&& final(self).reports == old(self).reports
                    },
                    Ok(rest) => {
                        let reporters = winners_at(
                            old(self).ledger@,
                            winners_key(dispute_proof.spec_key(), old(self).winners_lookup),
                        );
                        let offence = deferred_offence(
                            *dispute_proof,
                            info->0.total_validator_count,
                            owner->0,
                        );
                        &&& final(self).ledger@ == rest
                        &&& outcome == (if old(self).reports.spec_accepts(reporters, offence) {
                            Ok::<Pays, Error>(Pays::No)
                        } else {
                            Err::<Pays, Error>(Error::DuplicateSlashingReport)
                        })
                        &&& old(self).reports.reported(&final(self).reports, reporters, offence)
                    },
                }
            }),
    {
        // The proof of key ownership says who the offender is.
        let key = (PARACHAIN_KEY_TYPE_ID, dispute_proof.validator_id);
        let offender = match self.config.check_proof(key, &key_owner_proof) {
            Some(offender) => offender,
            None => {
                return Err(Error::InvalidKeyOwnershipProof);
            },
        };

        // The validator index has to name the validator's key in the session.
        let session_index = dispute_proof.time_slot.session_index;
        let info = self.config.session_info(session_index);
        let validator_set_count = match dispute_proof.check_session(&info) {
            Ok(validator_set_count) => validator_set_count,
            Err(reason) => {
                return Err(reason);
            },
        };

        // The loser has to wait in the ledger, and leaves it here.
        let candidate_hash = dispute_proof.time_slot.candidate_hash;
        let winners = match self.ledger.take_loser(
            dispute_proof.key(),
            dispute_proof.validator_index,
            self.winners_lookup,
        ) {
            Ok(winners) => winners,
            Err(reason) => {
                return Err(reason);
            },
        };

        // The ledger hands each loser out once, so the sink sees a duplicate
        // only if something else went wrong.
        let reported = match dispute_proof.kind {
            SlashingOffenceKind::ForInvalid => {
                let offence = ForInvalidOffence::new(
                    session_index,
                    candidate_hash,
                    validator_set_count,
                    offender,
                );
                self.reports.report_for_invalid_offence(winners, offence)
            },
            SlashingOffenceKind::AgainstValid => {
                let offence = AgainstValidOffence::new(
                    session_index,
                    candidate_hash,
                    validator_set_count,
                    offender,
                );
                self.reports.report_against_valid_offence(winners, offence)
            },
        };
        Self::report_result(reported)
    }

    /// What a report of a lost dispute with this proof of key ownership
    /// costs.
    pub fn report_dispute_lost_weight(key_owner_proof: &T::KeyOwnerProof) -> (weight: Weight)
        ensures
            weight == T::WeightInfo::spec_report_dispute_lost(
                T::spec_validator_count(*key_owner_proof),
            ),
    {
        T::WeightInfo::report_dispute_lost(T::validator_count(key_owner_proof))
    }

    /// Called by the initializer to initialize the slashing logic for a
    /// block; there is nothing to do, and it costs nothing.
    pub fn initializer_initialize(&self, now: BlockNumber) -> (weight: Weight)
        ensures
            weight == 0,
    {
        0
    }

    /// Called by the initializer to finalize the slashing logic for a block;
    /// there is nothing to do.
    pub fn initializer_finalize(&self) {
    }

    /// Called by the initializer to note a new session. The entries about
    /// the session that has then been over for more than the dispute period
    /// leave the ledger, reported or not, and are handed back: their losers
    /// will not be slashed.
    pub fn initializer_on_new_session(&mut self, notification: &SessionChangeNotification) -> (dropped:
        Ledger<T::AccountId>)
        requires
            old(self).wf(),
        ensures
            final(self).wf(),
            dropped.wf(),
            final(self).config == old(self).config,
            final(self).reports == old(self).reports,
            final(self).winners_lookup == old(self).winners_lookup,
            final(self).ledger@ == pruned(
                old(self).ledger@,
                notification.session_index,
                old(self).config.spec_dispute_period(),
            ),
            dropped@ == dropped_by(
                old(self).ledger@,
                notification.session_index,
                old(self).config.spec_dispute_period(),
            ),
    {
        let dispute_period = self.config.dispute_period();
        if dispute_period == u32::MAX || notification.session_index <= dispute_period + 1 {
            return Ledger::new();
        }
        let old_session = notification.session_index - dispute_period - 1;
        self.ledger.remove_session(old_session)
    }

    /// Checks the proof of key ownership of a report and asks the offence
    /// sink whether it knows the offence of that owner already.
    pub fn is_known_offence(
        &self,
        dispute_proof: &DisputeProof,
        key_owner_proof: &T::KeyOwnerProof,
    ) -> (fresh: Result<(), InvalidTransaction>)
        ensures
            fresh == staleness(self.spec_known_offence(*dispute_proof, *key_owner_proof)),
    {
        // The proof of key ownership says who the offender is.
        let key = (PARACHAIN_KEY_TYPE_ID, dispute_proof.validator_id);
        let offender = match self.config.check_proof(key, key_owner_proof) {
            Some(offender) => offender,
            None => {
                return Err(InvalidTransaction::BadProof);
            },
        };

        // A report of an offence that the sink knows already is of no use.
        let offenders = [offender];
        assert(offenders@ =~= seq![offender]);
        let is_known_offence = match dispute_proof.kind {
            SlashingOffenceKind::ForInvalid => self.reports.is_known_for_invalid_offence(
                &offenders,
                &dispute_proof.time_slot,
            ),
            SlashingOffenceKind::AgainstValid => self.reports.is_known_against_valid_offence(
                &offenders,
                &dispute_proof.time_slot,
            ),
        };

        if is_known_offence {
            Err(InvalidTransaction::Stale)
        } else {
            Ok(())
        }
    }

    /// The admission gate of the transaction pool. A report is admitted only
    /// from this node or from a block, so only block authors can include
    /// reports, and only if it is not stale.
    pub fn validate_unsigned(
        &self,
        source: TransactionSource,
        call: &Call<T::KeyOwnerProof>,
    ) -> (validity: TransactionValidity)
        ensures
            match call {
                Call::report_dispute_lost_unsigned { dispute_proof, key_owner_proof } => match admission(
                    source,
                    self.spec_known_offence(**dispute_proof, *key_owner_proof),
                ) {
                    Err(reason) => validity == Err::<ValidTransaction, InvalidTransaction>(reason),
                    Ok(_) => validity matches Ok(valid) && admits_report(
                        valid,
                        dispute_proof.kind,
                        dispute_proof.time_slot,
                        dispute_proof.validator_id,
                        self.reports.spec_report_longevity(),
                    ),
                },
            },
    {
        match call {
            Call::report_dispute_lost_unsigned { dispute_proof, key_owner_proof } => {
                // A report that a peer sent is not taken.
                match source {
                    TransactionSource::Local | TransactionSource::InBlock => {},
                    TransactionSource::External => {
                        return Err(InvalidTransaction::Call);
                    },
                }

                // Nor is one that is stale.
                match self.is_known_offence(dispute_proof, key_owner_proof) {
                    Ok(()) => {},
                    Err(reason) => {
                        return Err(reason);
                    },
                }

                let longevity = self.reports.report_longevity();
                Ok(
                    valid_report(
                        dispute_proof.kind,
                        &dispute_proof.time_slot,
                        &dispute_proof.validator_id,
                        longevity,
                    ),
                )
            },
        }
    }

    /// The admission gate before a report in a block is dispatched: the
    /// report must not be stale.
    pub fn pre_dispatch(&self, call: &Call<T::KeyOwnerProof>) -> (fresh: Result<
        (),
        InvalidTransaction,
    >)
        ensures
            match call {
                Call::report_dispute_lost_unsigned { dispute_proof, key_owner_proof } => fresh
                    == staleness(self.spec_known_offence(**dispute_proof, *key_owner_proof)),
            },
    {
        match call {
            Call::report_dispute_lost_unsigned { dispute_proof, key_owner_proof } => {
                self.is_known_offence(dispute_proof, key_owner_proof)
            },
        }
    }
}

} // verus!
