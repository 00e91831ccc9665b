//! What is done about the losers of a dispute when it concludes.
//!
//! The losers of a dispute about a candidate of the current session can be
//! identified on the spot, and their offence is filed at once. For a past
//! session the identifications may be gone: the losers go to the ledger and
//! wait for reports that prove who they are.
use crate::ledger::{Ledger, Pending, SlashKey};
use crate::losers::{ascending, ascending_indices, collect_losers, Losers};
use crate::offence::{AgainstValidOffence, ForInvalidOffence, OffenceView, SlashingOffenceKind};
use crate::pallet::{dropped_by, pruned, Config, Pallet};
use crate::primitives::{
    BlockNumber, CandidateHash, SessionChangeNotification, SessionIndex, ValidatorIndex, Weight,
};
use crate::reports::HandleReports;
use crate::time_slot::DisputesTimeSlot;
use core::marker::PhantomData;
use vstd::prelude::*;

verus! {

/// The accounts that `indices` name in `accounts`, in the order of `indices`;
/// an index past the end names none.
pub open spec fn accounts_at<A>(accounts: Seq<A>, indices: Seq<ValidatorIndex>) -> Seq<A>
    decreases indices.len(),
{
    if indices.len() == 0 {
        Seq::empty()
    } else {
        let before = accounts_at(accounts, indices.drop_last());
        if indices.last() < accounts.len() {
            before.push(accounts[indices.last() as int])
        } else {
            before
        }
    }
}

/// The identifications of the accounts that `indices` name in `accounts`, in
/// the order of `indices`; an index past the end and an account without
/// identification give none.
pub open spec fn identified<T: Config>(
    config: T,
    accounts: Seq<T::AccountId>,
    indices: Seq<ValidatorIndex>,
) -> Seq<T::KeyOwnerIdentification>
    decreases indices.len(),
{
    if indices.len() == 0 {
        Seq::empty()
    } else {
        let before = identified(config, accounts, indices.drop_last());
        if indices.last() < accounts.len() {
            match config.spec_identification_of(accounts[indices.last() as int]) {
                Some(identification) => before.push(identification),
                None => before,
            }
        } else {
            before
        }
    }
}

/// The offence that is filed at once for the losers of a dispute about a
/// candidate of the current session.
pub open spec fn immediate_offence<I>(
    kind: SlashingOffenceKind,
    session_index: SessionIndex,
    candidate_hash: CandidateHash,
    validator_set_count: u32,
    offenders: Seq<I>,
) -> OffenceView<I> {
    OffenceView {
        kind,
        validator_set_count,
        time_slot: DisputesTimeSlot { session_index, candidate_hash },
        offenders,
    }
}

/// What is done about a concluded dispute.
pub enum Punishment<A, I> {
    /// There is no loser, or the session is not on record.
    Nothing,
    /// The offence is filed at once.
    Immediate {
        /// The accounts of the winners, which are credited.
        reporters: Seq<A>,
        /// The offence of the losers that could be identified.
        offence: OffenceView<I>,
    },
    /// The losers wait in the ledger.
    Deferred {
        /// The losers.
        losers: Set<ValidatorIndex>,
        /// The accounts of the winners.
        winners: Seq<A>,
    },
}

/// What is done about the dispute about `candidate_hash` of session
/// `session_index` that `losers` lost and `winners` won.
///
/// Identification on the spot is for the current session alone, not for
/// earlier ones: their identifications may be pruned already. Losers without
/// an account or without an identification are left out of the offence.
pub open spec fn punishment<T: Config>(
    config: T,
    kind: SlashingOffenceKind,
    session_index: SessionIndex,
    candidate_hash: CandidateHash,
    losers: Seq<ValidatorIndex>,
    winners: Seq<ValidatorIndex>,
) -> Punishment<T::AccountId, T::KeyOwnerIdentification> {
    if losers.len() == 0 {
        Punishment::Nothing
    } else {
        match config.spec_account_keys(session_index) {
            None => Punishment::Nothing,
            Some(accounts) => if session_index == config.spec_current_session_index() {
                Punishment::Immediate {
                    reporters: accounts_at(accounts, winners),
                    offence: immediate_offence(
                        kind,
                        session_index,
                        candidate_hash,
                        accounts.len() as u32,
                        identified(config, accounts, ascending(losers.to_set())),
                    ),
                }
            } else {
                Punishment::Deferred {
                    losers: losers.to_set(),
                    winners: accounts_at(accounts, winners),
                }
            },
        }
    }
}

/// The accounts that `indices` name in `accounts`, in the order of `indices`;
/// an index past the end names none.
pub fn resolve_accounts<A: Copy>(accounts: &Vec<A>, indices: &Vec<ValidatorIndex>) -> (resolved:
    Vec<A>)
    ensures
        resolved@ == accounts_at(accounts@, indices@),
{
    let mut resolved: Vec<A> = Vec::new();
    let mut k: usize = 0;
    while k < indices.len()
        invariant
            k <= indices.len(),
            resolved@ == accounts_at(accounts@, indices@.take(k as int)),
        decreases indices.len() - k,
    {
        let i: usize = indices[k] as usize;
        if i < accounts.len() {
            resolved.push(accounts[i]);
        }
        assert(indices@.take(k + 1).drop_last() == indices@.take(k as int));
        k += 1;
    }
    assert(indices@.take(indices.len() as int) == indices@);
    resolved
}

/// The handler that slashes the losers of disputes through `C`.
pub struct SlashValidatorsForDisputes<C> {
    _phantom: PhantomData<C>,
}

impl<C> Default for SlashValidatorsForDisputes<C> {
    fn default() -> Self {
        Self { _phantom: PhantomData }
    }
}

impl<T: Config> SlashValidatorsForDisputes<Pallet<T>> {
    /// Identifies `validators` on the spot, which can be done for the current
    /// session alone: the answer is their identifications and the validator
    /// set count of the session, or nothing for any other session.
    ///
    /// The validators are identified in ascending order of their indices. One
    /// whose index names no account, or whose account has no identification,
    /// is left out. The validator set count is the number of accounts, cut
    /// to 32 bits.
    pub fn maybe_identify_validators(
        config: &T,
        session_index: SessionIndex,
        account_ids: &Vec<T::AccountId>,
        validators: &Losers,
    ) -> (identification: Option<(Vec<T::KeyOwnerIdentification>, u32)>)
        ensures
            identification is Some == (session_index == config.spec_current_session_index()),
            identification matches Some((offenders, validator_set_count)) ==> {
                &&& validator_set_count == account_ids@.len() as u32
                &&& offenders@ == identified(*config, account_ids@, ascending(validators@))
            },
    {
        // The session of the validator set is asked for, not that of the
        // chain: at the first block of a new era the identification of a
        // validator of the previous session might be missing.
        let current_session = config.current_session_index();
        if session_index == current_session {
            #[verifier::truncate]
            let validator_set_count: u32 = account_ids.len() as u32;
            let indices = ascending_indices(validators);
            let mut fully_identified: Vec<T::KeyOwnerIdentification> = Vec::new();
            let mut k: usize = 0;
            while k < indices.len()
                invariant
                    k <= indices.len(),
                    fully_identified@ == identified(*config, account_ids@, indices@.take(k as int)),
                decreases indices.len() - k,
            {
                let i: usize = indices[k] as usize;
                if i < account_ids.len() {
                    match config.identification_of(&account_ids[i]) {
                        Some(full_id) => {
                            fully_identified.push(full_id);
                        },
                        None => {},
                    }
                }
                assert(indices@.take(k + 1).drop_last() == indices@.take(k as int));
                k += 1;
            }
            assert(indices@.take(indices.len() as int) == indices@);
            return Some((fully_identified, validator_set_count));
        }
        None
    }

    /// Punishes the `losers` of the dispute about `candidate_hash` of session
    /// `session_index` for an offence of `kind`, and credits the `winners`.
    ///
    /// Nothing is done without losers or for a session that is not on
    /// record. For the current session the offence of the losers that can
    /// be identified is filed at once; whether the offence sink takes it is
    /// not looked at, and the ledger stays as it is. For any other session
    /// the losers and the winners' accounts go to the ledger, under the kind,
    /// the session and the candidate.
    pub fn punish(
        pallet: &mut Pallet<T>,
        kind: SlashingOffenceKind,
        session_index: SessionIndex,
        candidate_hash: CandidateHash,
        losers: Vec<ValidatorIndex>,
        winners: Vec<ValidatorIndex>,
    )
        requires
            old(pallet).wf(),
        ensures
            final(pallet).wf(),
            final(pallet).config == old(pallet).config,
            final(pallet).winners_lookup == old(pallet).winners_lookup,
            match punishment(
                old(pallet).config,
                kind,
                session_index,
                candidate_hash,
                losers@,
                winners@,
            ) {
                Punishment::Nothing => {
                    &&& final(pallet).ledger@ == old(pallet).ledger@
                    &&& final(pallet).reports == old(pallet).reports
                },
                Punishment::Immediate { reporters, offence } => {
                    &&& final(pallet).ledger@ == old(pallet).ledger@
                    &&& old(pallet).reports.reported(&final(pallet).reports, reporters, offence)
                },
                Punishment::Deferred { losers, winners } => {
                    &&& final(pallet).ledger@ == old(pallet).ledger@.insert(
                        SlashKey { kind, session_index, candidate_hash },
                        Pending { losers, winners },
                    )
                    &&& final(pallet).reports == old(pallet).reports
                },
            },
    {
        let ghost indices = losers@;
        let losers: Losers = collect_losers(&losers);
        proof {
            if indices.len() > 0 {
                assert(indices.to_set().contains(indices[0]));
            } else {
                assert(indices.to_set() =~= Set::<ValidatorIndex>::empty());
            }
        }
        if losers.is_empty() {
            // Without losers there is nobody to punish.
            return;
        }
        let account_ids = match pallet.config.account_keys(session_index) {
            Some(account_keys) => account_keys,
            None => {
                return;
            },
        };
        let winners = resolve_accounts(&account_ids, &winners);
        let ghost reporters = winners@;
        let maybe = Self::maybe_identify_validators(
            &pallet.config,
            session_index,
            &account_ids,
            &losers,
        );
        match maybe {
            Some((offenders, validator_set_count)) => {
                let time_slot = DisputesTimeSlot::new(session_index, candidate_hash);
                let ghost before = pallet.reports;
                // The dispute has just concluded, so the sink cannot know the
                // offence yet, and its answer is not looked at.
                let _ = match kind {
                    SlashingOffenceKind::ForInvalid => {
                        let offence = ForInvalidOffence { validator_set_count, time_slot, offenders };
                        pallet.reports.report_for_invalid_offence(winners, offence)
                    },
                    SlashingOffenceKind::AgainstValid => {
                        let offence = AgainstValidOffence {
                            validator_set_count,
                            time_slot,
                            offenders,
                        };
                        pallet.reports.report_against_valid_offence(winners, offence)
                    },
                };
                assert(before.reported(
                    &pallet.reports,
                    reporters,
                    immediate_offence(
                        kind,
                        session_index,
                        candidate_hash,
                        validator_set_count,
                        identified(pallet.config, account_ids@, ascending(losers@)),
                    ),
                ));
            },
            None => {
                let key = SlashKey { kind, session_index, candidate_hash };
                pallet.ledger.insert(key, losers, winners);
            },
        }
    }

    /// Punishes the validators that voted for an invalid candidate.
    pub fn punish_for_invalid(
        pallet: &mut Pallet<T>,
        session_index: SessionIndex,
        candidate_hash: CandidateHash,
        losers: Vec<ValidatorIndex>,
        winners: Vec<ValidatorIndex>,
    )
        requires
            old(pallet).wf(),
        ensures
            final(pallet).wf(),
            final(pallet).config == old(pallet).config,
            final(pallet).winners_lookup == old(pallet).winners_lookup,
            match punishment(
                old(pallet).config,
                SlashingOffenceKind::ForInvalid,
                session_index,
                candidate_hash,
                losers@,
                winners@,
            ) {
                Punishment::Nothing => {
                    &&& final(pallet).ledger@ == old(pallet).ledger@
                    &&& final(pallet).reports == old(pallet).reports
                },
                Punishment::Immediate { reporters, offence } => {
                    &&& final(pallet).ledger@ == old(pallet).ledger@
                    &&& old(pallet).reports.reported(&final(pallet).reports, reporters, offence)
                },
                Punishment::Deferred { losers, winners } => {
                    &&& final(pallet).ledger@ == old(pallet).ledger@.insert(
                        SlashKey {
                            kind: SlashingOffenceKind::ForInvalid,
                            session_index,
                            candidate_hash,
                        },
                        Pending { losers, winners },
                    )
                    &&& final(pallet).reports == old(pallet).reports
                },
            },
    {
        Self::punish(
            pallet,
            SlashingOffenceKind::ForInvalid,
            session_index,
            candidate_hash,
            losers,
            winners,
        )
    }

    /// Punishes the validators that voted against a valid candidate.
    pub fn punish_against_valid(
        pallet: &mut Pallet<T>,
        session_index: SessionIndex,
        candidate_hash: CandidateHash,
        losers: Vec<ValidatorIndex>,
        winners: Vec<ValidatorIndex>,
    )
        requires
            old(pallet).wf(),
        ensures
            final(pallet).wf(),
            final(pallet).config == old(pallet).config,
            final(pallet).winners_lookup == old(pallet).winners_lookup,
            match punishment(
                old(pallet).config,
                SlashingOffenceKind::AgainstValid,
                session_index,
                candidate_hash,
                losers@,
                winners@,
            ) {
                Punishment::Nothing => {
                    &&& final(pallet).ledger@ == old(pallet).ledger@
                    &&& final(pallet).reports == old(pallet).reports
                },
                Punishment::Immediate { reporters, offence } => {
                    &&& final(pallet).ledger@ == old(pallet).ledger@
                    &&& old(pallet).reports.reported(&final(pallet).reports, reporters, offence)
                },
                Punishment::Deferred { losers, winners } => {
                    &&& final(pallet).ledger@ == old(pallet).ledger@.insert(
                        SlashKey {
                            kind: SlashingOffenceKind::AgainstValid,
                            session_index,
                            candidate_hash,
                        },
                        Pending { losers, winners },
                    )
                    &&& final(pallet).reports == old(pallet).reports
                },
            },
    {
        Self::punish(
            pallet,
            SlashingOffenceKind::AgainstValid,
            session_index,
            candidate_hash,
            losers,
            winners,
        )
    }

    /// Initializes the slashing logic for a block.
    pub fn initializer_initialize(pallet: &Pallet<T>, now: BlockNumber) -> (weight: Weight)
        ensures
            weight == 0,
    {
        pallet.initializer_initialize(now)
    }

    /// Finalizes the slashing logic for a block.
    pub fn initializer_finalize(pallet: &Pallet<T>) {
        pallet.initializer_finalize()
    }

    /// Notes a new session: the entries about the session that has left the
    /// dispute window leave the ledger and are handed back.
    pub fn initializer_on_new_session(
        pallet: &mut Pallet<T>,
        notification: &SessionChangeNotification,
    ) -> (dropped: Ledger<T::AccountId>)
        requires
            old(pallet).wf(),
        ensures
            final(pallet).wf(),
            dropped.wf(),
            final(pallet).config == old(pallet).config,
            final(pallet).reports == old(pallet).reports,
            final(pallet).winners_lookup == old(pallet).winners_lookup,
            final(pallet).ledger@ == pruned(
                old(pallet).ledger@,
                notification.session_index,
                old(pallet).config.spec_dispute_period(),
            ),
            dropped@ == dropped_by(
                old(pallet).ledger@,
                notification.session_index,
                old(pallet).config.spec_dispute_period(),
            ),
    {
        pallet.initializer_on_new_session(notification)
    }
}

} // verus!
