use dispute_slashing::{
    Call, CandidateHash, Config, DisputeProof, DisputesTimeSlot, Error, HandleReports,
    InvalidTransaction, Pallet, Pays, SessionChangeNotification, SessionInfo, SlashKey,
    SlashValidatorsForDisputes, SlashingOffenceKind, TestWeightInfo, TransactionSource,
    ValidatorId, WinnersLookup, PARACHAIN_KEY_TYPE_ID,
};
use dispute_slashing::{AgainstValidOffence, ForInvalidOffence};
use sp_runtime::DispatchError;
use sp_staking::offence::OffenceError;

type Account = u64;

#[derive(Debug, PartialEq, Eq, Clone)]
struct Identity {
    stash: Account,
}

struct OwnershipProof {
    owner: Option<Account>,
    validators: u32,
}

struct Chain {
    current_session: u32,
    dispute_period: u32,
    known_sessions: Vec<u32>,
    validators: u32,
    without_identification: Vec<Account>,
}

fn account(index: u32) -> Account {
    1000 + index as u64
}

fn key_of(index: u32) -> ValidatorId {
    ValidatorId([index as u8; 32])
}

impl Config for Chain {
    type AccountId = Account;
    type KeyOwnerProof = OwnershipProof;
    type KeyOwnerIdentification = Identity;
    type HandleReports = Offences;
    type WeightInfo = TestWeightInfo;

    fn current_session_index(&self) -> u32 {
        self.current_session
    }

    fn account_keys(&self, session_index: u32) -> Option<Vec<Account>> {
        if self.known_sessions.contains(&session_index) {
            Some((0..self.validators).map(account).collect())
        } else {
            None
        }
    }

    fn session_info(&self, session_index: u32) -> Option<SessionInfo> {
        if self.known_sessions.contains(&session_index) {
            Some(SessionInfo {
                validators: (0..self.validators).map(key_of).collect(),
                total_validator_count: self.validators + 4,
            })
        } else {
            None
        }
    }

    fn identification_of(&self, account: &Account) -> Option<Identity> {
        if self.without_identification.contains(account) {
            None
        } else {
            Some(Identity { stash: *account })
        }
    }

    fn check_proof(&self, key: ([u8; 4], ValidatorId), proof: &OwnershipProof) -> Option<Identity> {
        assert_eq!(key.0, PARACHAIN_KEY_TYPE_ID);
        proof.owner.map(|stash| Identity { stash })
    }

    fn dispute_period(&self) -> u32 {
        self.dispute_period
    }

    fn validator_count(proof: &OwnershipProof) -> u32 {
        proof.validators
    }
}

#[derive(Debug, PartialEq, Eq)]
struct Filed {
    kind: SlashingOffenceKind,
    reporters: Vec<Account>,
    validator_set_count: u32,
    time_slot: DisputesTimeSlot,
    offenders: Vec<Identity>,
}

struct Offences {
    filed: Vec<Filed>,
    longevity: u64,
}

impl Offences {
    fn knows(&self, kind: SlashingOffenceKind, offenders: &[Identity], slot: &DisputesTimeSlot) -> bool {
        offenders.iter().all(|offender| {
            self.filed.iter().any(|f| {
                f.kind == kind && f.time_slot == *slot && f.offenders.contains(offender)
            })
        })
    }

    fn file(&mut self, filed: Filed) -> Result<(), OffenceError> {
        if !filed.offenders.is_empty() && self.knows(filed.kind, &filed.offenders, &filed.time_slot) {
            return Err(OffenceError::DuplicateReport);
        }
        self.filed.push(filed);
        Ok(())
    }
}

impl HandleReports<Account, Identity, OwnershipProof> for Offences {
    fn report_longevity(&self) -> u64 {
        self.longevity
    }

    fn report_for_invalid_offence(
        &mut self,
        reporters: Vec<Account>,
        offence: ForInvalidOffence<Identity>,
    ) -> Result<(), OffenceError> {
        self.file(Filed {
            kind: SlashingOffenceKind::ForInvalid,
            reporters,
            validator_set_count: offence.validator_set_count,
            time_slot: offence.time_slot,
            offenders: offence.offenders,
        })
    }

    fn report_against_valid_offence(
        &mut self,
        reporters: Vec<Account>,
        offence: AgainstValidOffence<Identity>,
    ) -> Result<(), OffenceError> {
        self.file(Filed {
            kind: SlashingOffenceKind::AgainstValid,
            reporters,
            validator_set_count: offence.validator_set_count,
            time_slot: offence.time_slot,
            offenders: offence.offenders,
        })
    }

    fn is_known_for_invalid_offence(&self, offenders: &[Identity], slot: &DisputesTimeSlot) -> bool {
        self.knows(SlashingOffenceKind::ForInvalid, offenders, slot)
    }

    fn is_known_against_valid_offence(&self, offenders: &[Identity], slot: &DisputesTimeSlot) -> bool {
        self.knows(SlashingOffenceKind::AgainstValid, offenders, slot)
    }

    fn submit_unsigned_slashing_report(
        &mut self,
        _dispute_proof: DisputeProof,
        _key_owner_proof: OwnershipProof,
    ) -> Result<(), DispatchError> {
        Ok(())
    }
}

type Slasher = SlashValidatorsForDisputes<Pallet<Chain>>;

fn hash(byte: u8) -> CandidateHash {
    CandidateHash([byte; 32])
}

fn pallet_at(current_session: u32) -> Pallet<Chain> {
    Pallet::new(
        Chain {
            current_session,
            dispute_period: 6,
            known_sessions: (1..=current_session).collect(),
            validators: 8,
            without_identification: vec![],
        },
        Offences { filed: vec![], longevity: 27 },
    )
}

fn proof_of(kind: SlashingOffenceKind, session: u32, candidate: u8, index: u32) -> DisputeProof {
    DisputeProof {
        time_slot: DisputesTimeSlot::new(session, hash(candidate)),
        kind,
        validator_index: index,
        validator_id: key_of(index),
    }
}

fn owned_by(index: u32) -> OwnershipProof {
    OwnershipProof { owner: Some(account(index)), validators: 8 }
}

fn key(kind: SlashingOffenceKind, session: u32, candidate: u8) -> SlashKey {
    SlashKey { kind, session_index: session, candidate_hash: hash(candidate) }
}

#[test]
fn past_session_dispute_is_deferred_resolved_and_pruned() {
    let mut pallet = pallet_at(12);
    Slasher::punish_for_invalid(&mut pallet, 10, hash(7), vec![3], vec![5]);

    let entry = key(SlashingOffenceKind::ForInvalid, 10, 7);
    assert_eq!(pallet.ledger.pending_losers(entry), Some(vec![3]));
    assert_eq!(pallet.ledger.winners(entry), vec![account(5)]);
    assert!(pallet.reports.filed.is_empty());

    let outcome = pallet.report_dispute_lost_unsigned(
        Box::new(proof_of(SlashingOffenceKind::ForInvalid, 10, 7, 3)),
        owned_by(3),
    );
    assert_eq!(outcome, Ok(Pays::No));
    assert_eq!(pallet.ledger.pending_losers(entry), None);
    assert_eq!(pallet.ledger.len(), 0);
    assert_eq!(
        pallet.reports.filed,
        vec![Filed {
            kind: SlashingOffenceKind::ForInvalid,
            reporters: vec![account(5)],
            validator_set_count: 12,
            time_slot: DisputesTimeSlot::new(10, hash(7)),
            offenders: vec![Identity { stash: account(3) }],
        }]
    );

    // a remnant of the same session is pruned at session 17 and not before
    Slasher::punish_for_invalid(&mut pallet, 10, hash(8), vec![1, 2], vec![]);
    let remnant = key(SlashingOffenceKind::ForInvalid, 10, 8);
    let dropped = pallet.initializer_on_new_session(&SessionChangeNotification { session_index: 16 });
    assert_eq!(dropped.len(), 0);
    assert_eq!(pallet.ledger.pending_losers(remnant), Some(vec![1, 2]));
    let dropped = pallet.initializer_on_new_session(&SessionChangeNotification { session_index: 17 });
    assert_eq!(dropped.len(), 1);
    assert_eq!(dropped.pending_losers(remnant), Some(vec![1, 2]));
    assert_eq!(pallet.ledger.len(), 0);
}

#[test]
fn current_session_dispute_is_reported_at_once() {
    let mut pallet = pallet_at(12);
    pallet.config.without_identification = vec![account(4)];
    Slasher::punish_against_valid(&mut pallet, 12, hash(1), vec![6, 4, 2, 6, 99], vec![0, 77, 1, 0]);

    assert_eq!(pallet.ledger.len(), 0);
    assert_eq!(
        pallet.reports.filed,
        vec![Filed {
            kind: SlashingOffenceKind::AgainstValid,
            reporters: vec![account(0), account(1), account(0)],
            validator_set_count: 8,
            time_slot: DisputesTimeSlot::new(12, hash(1)),
            offenders: vec![Identity { stash: account(2) }, Identity { stash: account(6) }],
        }]
    );
}

#[test]
fn nothing_is_done_without_losers_or_without_the_session() {
    let mut pallet = pallet_at(12);
    Slasher::punish_for_invalid(&mut pallet, 12, hash(1), vec![], vec![0]);
    Slasher::punish_for_invalid(&mut pallet, 10, hash(1), vec![], vec![0]);
    Slasher::punish_for_invalid(&mut pallet, 40, hash(1), vec![1], vec![0]);
    Slasher::punish_against_valid(&mut pallet, 0, hash(1), vec![1], vec![0]);
    assert_eq!(pallet.ledger.len(), 0);
    assert!(pallet.reports.filed.is_empty());
}

#[test]
fn a_loser_is_taken_once() {
    let mut pallet = pallet_at(12);
    Slasher::punish_for_invalid(&mut pallet, 10, hash(7), vec![3, 4], vec![5]);
    let report = || Box::new(proof_of(SlashingOffenceKind::ForInvalid, 10, 7, 3));

    assert_eq!(pallet.report_dispute_lost_unsigned(report(), owned_by(3)), Ok(Pays::No));
    assert_eq!(
        pallet.report_dispute_lost_unsigned(report(), owned_by(3)),
        Err(Error::InvalidValidatorIndex)
    );
    assert_eq!(pallet.reports.filed.len(), 1);

    // once the last loser is taken the entry is gone
    let last = || Box::new(proof_of(SlashingOffenceKind::ForInvalid, 10, 7, 4));
    assert_eq!(pallet.report_dispute_lost_unsigned(last(), owned_by(4)), Ok(Pays::No));
    assert_eq!(
        pallet.report_dispute_lost_unsigned(last(), owned_by(4)),
        Err(Error::InvalidCandidateHash)
    );
    assert_eq!(pallet.reports.filed.len(), 2);
}

#[test]
fn each_rejection_has_its_reason() {
    let mut pallet = pallet_at(12);
    Slasher::punish_for_invalid(&mut pallet, 10, hash(7), vec![3], vec![5]);
    let good = proof_of(SlashingOffenceKind::ForInvalid, 10, 7, 3);

    let no_owner = OwnershipProof { owner: None, validators: 8 };
    assert_eq!(
        pallet.report_dispute_lost_unsigned(Box::new(good), no_owner),
        Err(Error::InvalidKeyOwnershipProof)
    );

    let unknown_session = proof_of(SlashingOffenceKind::ForInvalid, 40, 7, 3);
    assert_eq!(
        pallet.report_dispute_lost_unsigned(Box::new(unknown_session), owned_by(3)),
        Err(Error::InvalidSessionIndex)
    );

    let mut wrong_key = good;
    wrong_key.validator_id = key_of(4);
    assert_eq!(
        pallet.report_dispute_lost_unsigned(Box::new(wrong_key), owned_by(3)),
        Err(Error::ValidatorIndexIdMismatch)
    );

    let mut past_the_end = good;
    past_the_end.validator_index = 8;
    past_the_end.validator_id = key_of(8);
    assert_eq!(
        pallet.report_dispute_lost_unsigned(Box::new(past_the_end), owned_by(3)),
        Err(Error::ValidatorIndexIdMismatch)
    );

    let other_candidate = proof_of(SlashingOffenceKind::ForInvalid, 10, 9, 3);
    assert_eq!(
        pallet.report_dispute_lost_unsigned(Box::new(other_candidate), owned_by(3)),
        Err(Error::InvalidCandidateHash)
    );

    let other_kind = proof_of(SlashingOffenceKind::AgainstValid, 10, 7, 3);
    assert_eq!(
        pallet.report_dispute_lost_unsigned(Box::new(other_kind), owned_by(3)),
        Err(Error::InvalidCandidateHash)
    );

    let other_index = proof_of(SlashingOffenceKind::ForInvalid, 10, 7, 2);
    assert_eq!(
        pallet.report_dispute_lost_unsigned(Box::new(other_index), owned_by(2)),
        Err(Error::InvalidValidatorIndex)
    );

    // none of the rejections touched the ledger or the sink
    let entry = key(SlashingOffenceKind::ForInvalid, 10, 7);
    assert_eq!(pallet.ledger.pending_losers(entry), Some(vec![3]));
    assert!(pallet.reports.filed.is_empty());
}

#[test]
fn a_report_that_the_sink_knows_is_a_duplicate() {
    let mut pallet = pallet_at(12);
    Slasher::punish_for_invalid(&mut pallet, 10, hash(7), vec![3], vec![5]);
    pallet.reports.filed.push(Filed {
        kind: SlashingOffenceKind::ForInvalid,
        reporters: vec![],
        validator_set_count: 12,
        time_slot: DisputesTimeSlot::new(10, hash(7)),
        offenders: vec![Identity { stash: account(3) }],
    });
    let report = Box::new(proof_of(SlashingOffenceKind::ForInvalid, 10, 7, 3));
    assert_eq!(
        pallet.report_dispute_lost_unsigned(report, owned_by(3)),
        Err(Error::DuplicateSlashingReport)
    );
    // the loser has left the ledger all the same
    assert_eq!(pallet.ledger.len(), 0);
}

#[test]
fn against_valid_reports_credit_the_for_invalid_winners_unless_told_otherwise() {
    let mut pallet = pallet_at(12);
    Slasher::punish_against_valid(&mut pallet, 10, hash(7), vec![3, 4], vec![5]);
    Slasher::punish_for_invalid(&mut pallet, 10, hash(7), vec![1], vec![6]);

    let first = Box::new(proof_of(SlashingOffenceKind::AgainstValid, 10, 7, 3));
    assert_eq!(pallet.report_dispute_lost_unsigned(first, owned_by(3)), Ok(Pays::No));
    assert_eq!(pallet.reports.filed[0].reporters, vec![account(6)]);

    pallet.winners_lookup = WinnersLookup::SameKind;
    let second = Box::new(proof_of(SlashingOffenceKind::AgainstValid, 10, 7, 4));
    assert_eq!(pallet.report_dispute_lost_unsigned(second, owned_by(4)), Ok(Pays::No));
    assert_eq!(pallet.reports.filed[1].reporters, vec![account(5)]);
    assert_eq!(pallet.reports.filed[1].kind, SlashingOffenceKind::AgainstValid);
}

#[test]
fn without_for_invalid_winners_an_against_valid_report_credits_nobody() {
    let mut pallet = pallet_at(12);
    Slasher::punish_against_valid(&mut pallet, 10, hash(7), vec![3], vec![5]);
    let report = Box::new(proof_of(SlashingOffenceKind::AgainstValid, 10, 7, 3));
    assert_eq!(pallet.report_dispute_lost_unsigned(report, owned_by(3)), Ok(Pays::No));
    assert_eq!(pallet.reports.filed[0].reporters, Vec::<Account>::new());
    assert_eq!(pallet.reports.filed[0].validator_set_count, 12);
}

fn call_of(proof: DisputeProof, owner: OwnershipProof) -> Call<OwnershipProof> {
    Call::report_dispute_lost_unsigned { dispute_proof: Box::new(proof), key_owner_proof: owner }
}

#[test]
fn admission_takes_local_and_in_block_reports_only() {
    let pallet = pallet_at(12);
    let proof = proof_of(SlashingOffenceKind::ForInvalid, 10, 7, 3);
    assert_eq!(
        pallet.validate_unsigned(TransactionSource::External, &call_of(proof, owned_by(3))),
        Err(InvalidTransaction::Call)
    );
    let local = pallet.validate_unsigned(TransactionSource::Local, &call_of(proof, owned_by(3)));
    let in_block = pallet.validate_unsigned(TransactionSource::InBlock, &call_of(proof, owned_by(3)));
    assert!(local.is_ok());
    assert_eq!(local, in_block);
    assert_eq!(pallet.pre_dispatch(&call_of(proof, owned_by(3))), Ok(()));
}

#[test]
fn admission_record_of_a_for_invalid_report() {
    let pallet = pallet_at(12);
    let proof = proof_of(SlashingOffenceKind::ForInvalid, 10, 7, 3);
    let valid = pallet
        .validate_unsigned(TransactionSource::Local, &call_of(proof, owned_by(3)))
        .unwrap();
    assert_eq!(valid.priority, u64::MAX);
    assert_eq!(valid.requires, Vec::<Vec<u8>>::new());
    assert_eq!(valid.longevity, 27);
    assert!(!valid.propagate);

    let mut tag = vec![17 * 4];
    tag.extend_from_slice(b"DisputeForInvalid");
    tag.extend_from_slice(&[10, 0, 0, 0]);
    tag.extend_from_slice(&[7; 32]);
    tag.extend_from_slice(&[3; 32]);
    assert_eq!(valid.provides, vec![tag]);
}

#[test]
fn admission_record_of_an_against_valid_report() {
    let pallet = pallet_at(12);
    let proof = proof_of(SlashingOffenceKind::AgainstValid, 0x0102_0304, 9, 5);
    let valid = pallet
        .validate_unsigned(TransactionSource::InBlock, &call_of(proof, owned_by(5)))
        .unwrap();
    let mut tag = vec![19 * 4];
    tag.extend_from_slice(b"DisputeAgainstValid");
    tag.extend_from_slice(&[4, 3, 2, 1]);
    tag.extend_from_slice(&[9; 32]);
    tag.extend_from_slice(&[5; 32]);
    assert_eq!(valid.provides, vec![tag]);
    assert_eq!(valid.priority, u64::MAX);
    assert!(!valid.propagate);
}

#[test]
fn admission_rejects_bad_proofs_and_known_offences() {
    let mut pallet = pallet_at(12);
    let proof = proof_of(SlashingOffenceKind::ForInvalid, 10, 7, 3);
    let no_owner = || OwnershipProof { owner: None, validators: 8 };
    assert_eq!(
        pallet.validate_unsigned(TransactionSource::Local, &call_of(proof, no_owner())),
        Err(InvalidTransaction::BadProof)
    );
    assert_eq!(pallet.pre_dispatch(&call_of(proof, no_owner())), Err(InvalidTransaction::BadProof));
    assert_eq!(pallet.is_known_offence(&proof, &no_owner()), Err(InvalidTransaction::BadProof));

    Slasher::punish_for_invalid(&mut pallet, 10, hash(7), vec![3], vec![5]);
    assert_eq!(pallet.report_dispute_lost_unsigned(Box::new(proof), owned_by(3)), Ok(Pays::No));
    assert_eq!(
        pallet.validate_unsigned(TransactionSource::Local, &call_of(proof, owned_by(3))),
        Err(InvalidTransaction::Stale)
    );
    assert_eq!(
        pallet.validate_unsigned(TransactionSource::InBlock, &call_of(proof, owned_by(3))),
        Err(InvalidTransaction::Stale)
    );
    assert_eq!(pallet.pre_dispatch(&call_of(proof, owned_by(3))), Err(InvalidTransaction::Stale));

    // the other kind of offence at the same slot is not known
    let other = proof_of(SlashingOffenceKind::AgainstValid, 10, 7, 3);
    assert_eq!(pallet.pre_dispatch(&call_of(other, owned_by(3))), Ok(()));
}

#[test]
fn admission_gives_the_same_answer_twice() {
    let pallet = pallet_at(12);
    let proof = proof_of(SlashingOffenceKind::AgainstValid, 11, 2, 1);
    let first = pallet.validate_unsigned(TransactionSource::Local, &call_of(proof, owned_by(1)));
    let second = pallet.validate_unsigned(TransactionSource::Local, &call_of(proof, owned_by(1)));
    assert_eq!(first, second);
    assert_eq!(
        pallet.pre_dispatch(&call_of(proof, owned_by(1))),
        pallet.pre_dispatch(&call_of(proof, owned_by(1)))
    );
}

#[test]
fn pruning_waits_for_the_bootstrap_window() {
    let mut pallet = pallet_at(12);
    Slasher::punish_for_invalid(&mut pallet, 1, hash(1), vec![1], vec![]);
    Slasher::punish_against_valid(&mut pallet, 1, hash(2), vec![2], vec![]);
    Slasher::punish_against_valid(&mut pallet, 2, hash(2), vec![2], vec![]);
    for session in 0..=7 {
        let dropped = pallet.initializer_on_new_session(&SessionChangeNotification { session_index: session });
        assert_eq!(dropped.len(), 0);
    }
    assert_eq!(pallet.ledger.len(), 3);
    let dropped = pallet.initializer_on_new_session(&SessionChangeNotification { session_index: 8 });
    assert_eq!(dropped.len(), 2);
    assert_eq!(pallet.ledger.len(), 1);
    assert!(pallet.ledger.contains(key(SlashingOffenceKind::AgainstValid, 2, 2)));
}

#[test]
fn pruning_with_the_longest_dispute_period_drops_nothing() {
    let mut pallet = pallet_at(12);
    pallet.config.dispute_period = u32::MAX;
    Slasher::punish_for_invalid(&mut pallet, 1, hash(1), vec![1], vec![]);
    let dropped = pallet.initializer_on_new_session(&SessionChangeNotification { session_index: u32::MAX });
    assert_eq!(dropped.len(), 0);
    assert_eq!(pallet.ledger.len(), 1);
}

#[test]
fn weight_of_a_report_and_of_the_block_hooks() {
    let pallet = pallet_at(12);
    assert_eq!(Pallet::<Chain>::report_dispute_lost_weight(&owned_by(3)), 0);
    assert_eq!(pallet.initializer_initialize(5), 0);
    assert_eq!(Slasher::initializer_initialize(&pallet, 5), 0);
    pallet.initializer_finalize();
    Slasher::initializer_finalize(&pallet);
}

#[test]
fn the_sink_that_handles_nothing_knows_everything() {
    let mut nothing = ();
    let slot = DisputesTimeSlot::new(1, hash(1));
    let offenders = [Identity { stash: 1 }];
    assert!(HandleReports::<Account, Identity, OwnershipProof>::is_known_for_invalid_offence(
        &nothing, &offenders, &slot
    ));
    assert!(HandleReports::<Account, Identity, OwnershipProof>::is_known_against_valid_offence(
        &nothing, &offenders, &slot
    ));
    assert_eq!(HandleReports::<Account, Identity, OwnershipProof>::report_longevity(&nothing), 0);
    let offence = ForInvalidOffence::new(1, hash(1), 4, Identity { stash: 1 });
    assert!(HandleReports::<Account, Identity, OwnershipProof>::report_for_invalid_offence(
        &mut nothing,
        vec![2],
        offence
    )
    .is_ok());
    let offence = AgainstValidOffence::new(1, hash(1), 4, Identity { stash: 1 });
    assert!(HandleReports::<Account, Identity, OwnershipProof>::report_against_valid_offence(
        &mut nothing,
        vec![2],
        offence
    )
    .is_ok());
    let proof = proof_of(SlashingOffenceKind::ForInvalid, 1, 1, 1);
    assert!(HandleReports::<Account, Identity, OwnershipProof>::submit_unsigned_slashing_report(
        &mut nothing,
        proof,
        owned_by(1)
    )
    .is_ok());
}

#[test]
fn the_answer_of_the_sink_decides_the_answer_of_the_call() {
    assert_eq!(Pallet::<Chain>::report_result(Ok(())), Ok(Pays::No));
    assert_eq!(
        Pallet::<Chain>::report_result(Err(OffenceError::DuplicateReport)),
        Err(Error::DuplicateSlashingReport)
    );
    assert_eq!(
        Pallet::<Chain>::report_result(Err(OffenceError::Other(3))),
        Err(Error::DuplicateSlashingReport)
    );
}

#[test]
fn severity_is_the_same_at_once_and_deferred() {
    for kind in [SlashingOffenceKind::ForInvalid, SlashingOffenceKind::AgainstValid] {
        let mut pallet = pallet_at(12);
        // the loser of a dispute about the current session is reported at once
        Slasher::punish(&mut pallet, kind, 12, hash(1), vec![3], vec![5]);
        // the loser of a dispute about a past session waits for a report
        Slasher::punish(&mut pallet, kind, 11, hash(2), vec![3], vec![5]);
        assert_eq!(pallet.reports.filed.len(), 1);
        let report = Box::new(proof_of(kind, 11, 2, 3));
        assert_eq!(pallet.report_dispute_lost_unsigned(report, owned_by(3)), Ok(Pays::No));

        let at_once = &pallet.reports.filed[0];
        let deferred = &pallet.reports.filed[1];
        assert_eq!(at_once.kind, kind);
        assert_eq!(deferred.kind, kind);
        assert_eq!(at_once.offenders, deferred.offenders);
        assert_eq!(at_once.kind.slash_fraction(), deferred.kind.slash_fraction());
        assert_eq!(at_once.kind.disable_strategy(), deferred.kind.disable_strategy());
    }
}

#[test]
fn nothing_older_than_the_window_outlives_a_session() {
    let dispute_period = 6;
    let mut pallet = pallet_at(1);
    for session in 2..40u32 {
        pallet.config.current_session = session;
        pallet.config.known_sessions.push(session);
        pallet.initializer_on_new_session(&SessionChangeNotification { session_index: session });

        // disputes conclude about every session of the window but the current one
        let oldest = session.saturating_sub(dispute_period).max(1);
        for past in oldest..session {
            let candidate = (session % 7) as u8;
            Slasher::punish_for_invalid(&mut pallet, past, hash(candidate), vec![1, 2], vec![0]);
            Slasher::punish_against_valid(&mut pallet, past, hash(candidate), vec![3], vec![0]);
        }
        // and some losers are reported
        let report = Box::new(proof_of(SlashingOffenceKind::AgainstValid, oldest, (session % 7) as u8, 3));
        let _ = pallet.report_dispute_lost_unsigned(report, owned_by(3));

        let entries = std::mem::replace(&mut pallet.ledger, dispute_slashing::Ledger::new()).into_entries();
        assert!(!entries.is_empty());
        for entry in &entries {
            assert!(entry.session_index as i64 >= session as i64 - dispute_period as i64 - 1);
            assert!(entry.session_index + dispute_period + 1 > session);
            assert!(!entry.losers.is_empty());
        }
        pallet.ledger = dispute_slashing::Ledger::from_entries(entries);
    }
}

#[test]
fn entries_about_session_zero_are_never_pruned() {
    let mut pallet = pallet_at(0);
    pallet.config.known_sessions.push(0);
    pallet.config.current_session = 1;
    Slasher::punish_for_invalid(&mut pallet, 0, hash(1), vec![1], vec![]);
    for session in 1..20u32 {
        let dropped = pallet.initializer_on_new_session(&SessionChangeNotification { session_index: session });
        assert_eq!(dropped.len(), 0);
    }
    assert!(pallet.ledger.contains(key(SlashingOffenceKind::ForInvalid, 0, 1)));
}
