use dispute_slashing::{
    AgainstValidOffence, Call, CandidateHash, DisableStrategy, DisputeProof, DisputesTimeSlot,
    Error, ForInvalidOffence, InvalidTransaction, Pallet, Perbill, SlashValidatorsForDisputes,
    SlashingOffenceKind, TransactionSource, ValidatorId,
};

#[test]
fn a_time_slot_holds_what_it_was_made_of() {
    let slot = DisputesTimeSlot::new(9, CandidateHash([3; 32]));
    assert_eq!(slot.session_index, 9);
    assert_eq!(slot.candidate_hash, CandidateHash([3; 32]));
    assert_eq!(slot, DisputesTimeSlot::new(9, CandidateHash([3; 32])));
    assert_ne!(slot, DisputesTimeSlot::new(8, CandidateHash([3; 32])));
    let mut other = [3; 32];
    other[31] = 4;
    assert_ne!(slot, DisputesTimeSlot::new(9, CandidateHash(other)));
}

#[test]
fn percent_is_capped_at_the_whole() {
    assert_eq!(Perbill::from_percent(0).deconstruct(), 0);
    assert_eq!(Perbill::from_percent(1).deconstruct(), 10_000_000);
    assert_eq!(Perbill::from_percent(37).deconstruct(), 370_000_000);
    assert_eq!(Perbill::from_percent(99).deconstruct(), 990_000_000);
    assert_eq!(Perbill::from_percent(100).deconstruct(), 1_000_000_000);
    assert_eq!(Perbill::from_percent(101).deconstruct(), 1_000_000_000);
    assert_eq!(Perbill::from_percent(u32::MAX).deconstruct(), 1_000_000_000);
}

#[test]
fn for_invalid_costs_everything_and_disables() {
    for (offenders, validators) in [(0, 0), (1, 1), (1, 1000), (300, 301), (u32::MAX, u32::MAX)] {
        let fraction = ForInvalidOffence::<u64>::slash_fraction(offenders, validators);
        assert_eq!(fraction.deconstruct(), 1_000_000_000);
        assert_eq!(fraction, Perbill::from_percent(100));
    }
    let offence = ForInvalidOffence::new(4, CandidateHash([1; 32]), 20, 77u64);
    assert_eq!(offence.disable_strategy(), DisableStrategy::Always);
    assert_eq!(SlashingOffenceKind::ForInvalid.slash_fraction().deconstruct(), 1_000_000_000);
    assert_eq!(SlashingOffenceKind::ForInvalid.disable_strategy(), DisableStrategy::Always);
}

#[test]
fn against_valid_costs_a_hundredth_and_never_disables() {
    for (offenders, validators) in [(0, 0), (1, 1), (1, 1000), (300, 301), (u32::MAX, u32::MAX)] {
        let fraction = AgainstValidOffence::<u64>::slash_fraction(offenders, validators);
        assert_eq!(fraction.deconstruct(), 10_000_000);
        assert_eq!(fraction, Perbill::from_percent(1));
    }
    let offence = AgainstValidOffence::new(4, CandidateHash([1; 32]), 20, 77u64);
    assert_eq!(offence.disable_strategy(), DisableStrategy::Never);
    assert_eq!(SlashingOffenceKind::AgainstValid.slash_fraction().deconstruct(), 10_000_000);
    assert_eq!(SlashingOffenceKind::AgainstValid.disable_strategy(), DisableStrategy::Never);
}

#[test]
fn an_offence_of_one_offender() {
    let offence = ForInvalidOffence::new(4, CandidateHash([1; 32]), 20, 77u64);
    assert_eq!(offence.offenders(), &vec![77]);
    assert_eq!(offence.session_index(), 4);
    assert_eq!(offence.validator_set_count(), 20);
    assert_eq!(offence.time_slot(), DisputesTimeSlot::new(4, CandidateHash([1; 32])));

    let offence = AgainstValidOffence::new(5, CandidateHash([2; 32]), 21, 78u64);
    assert_eq!(offence.offenders(), &vec![78]);
    assert_eq!(offence.session_index(), 5);
    assert_eq!(offence.validator_set_count(), 21);
    assert_eq!(offence.time_slot(), DisputesTimeSlot::new(5, CandidateHash([2; 32])));
}

#[test]
fn the_two_kinds_have_their_own_names() {
    assert_eq!(&ForInvalidOffence::<u64>::id(), b"disputes:invalid");
    assert_eq!(&AgainstValidOffence::<u64>::id(), b"disputes:valid::");
}

#[test]
fn on_the_chain_without_records_nothing_is_punished_and_every_report_fails() {
    let mut pallet: Pallet<()> = Pallet::new((), ());
    SlashValidatorsForDisputes::<Pallet<()>>::punish_for_invalid(
        &mut pallet,
        0,
        CandidateHash([1; 32]),
        vec![1, 2],
        vec![3],
    );
    assert_eq!(pallet.ledger.len(), 0);
    let proof = DisputeProof {
        time_slot: DisputesTimeSlot::new(0, CandidateHash([1; 32])),
        kind: SlashingOffenceKind::ForInvalid,
        validator_index: 1,
        validator_id: ValidatorId([0; 32]),
    };
    assert_eq!(
        pallet.report_dispute_lost_unsigned(Box::new(proof), ()),
        Err(Error::InvalidKeyOwnershipProof)
    );
    assert_eq!(pallet.is_known_offence(&proof, &()), Err(InvalidTransaction::BadProof));
    let call = Call::report_dispute_lost_unsigned { dispute_proof: Box::new(proof), key_owner_proof: () };
    assert_eq!(
        pallet.validate_unsigned(TransactionSource::Local, &call),
        Err(InvalidTransaction::BadProof)
    );
    assert_eq!(
        pallet.validate_unsigned(TransactionSource::External, &call),
        Err(InvalidTransaction::Call)
    );
    assert_eq!(Pallet::<()>::report_dispute_lost_weight(&()), 0);
}
