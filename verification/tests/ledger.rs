use dispute_slashing::ledger::copy_accounts;
use dispute_slashing::losers::{ascending_indices, collect_losers};
use dispute_slashing::punish::resolve_accounts;
use dispute_slashing::{
    CandidateHash, Error, Ledger, Losers, PendingSlash, SlashKey, SlashingOffenceKind,
    WinnersLookup,
};

fn key(kind: SlashingOffenceKind, session_index: u32, candidate: u8) -> SlashKey {
    SlashKey { kind, session_index, candidate_hash: CandidateHash([candidate; 32]) }
}

fn losers(indices: &[u32]) -> Losers {
    collect_losers(&indices.to_vec())
}

fn entry(key: SlashKey, indices: &[u32], winners: &[u64]) -> PendingSlash<u64> {
    PendingSlash {
        kind: key.kind,
        session_index: key.session_index,
        candidate_hash: key.candidate_hash,
        losers: losers(indices),
        winners: winners.to_vec(),
    }
}

const FOR_INVALID: SlashingOffenceKind = SlashingOffenceKind::ForInvalid;
const AGAINST_VALID: SlashingOffenceKind = SlashingOffenceKind::AgainstValid;

#[test]
fn losers_are_a_set_in_ascending_order() {
    let collected = collect_losers(&vec![9, 3, 3, 7, 0, 9, u32::MAX]);
    assert_eq!(collected.len(), 5);
    assert_eq!(ascending_indices(&collected), vec![0, 3, 7, 9, u32::MAX]);
    assert_eq!(ascending_indices(&collect_losers(&vec![])), Vec::<u32>::new());
}

#[test]
fn accounts_are_resolved_in_the_order_of_the_indices() {
    let accounts = vec![10u64, 11, 12];
    assert_eq!(resolve_accounts(&accounts, &vec![2, 0, 3, 2, u32::MAX, 1]), vec![12, 10, 12, 11]);
    assert_eq!(resolve_accounts(&accounts, &vec![]), Vec::<u64>::new());
    assert_eq!(resolve_accounts(&Vec::<u64>::new(), &vec![0, 1]), Vec::<u64>::new());
    assert_eq!(copy_accounts(&accounts), accounts);
}

#[test]
fn a_new_ledger_is_empty() {
    let ledger: Ledger<u64> = Ledger::new();
    assert_eq!(ledger.len(), 0);
    assert!(!ledger.contains(key(FOR_INVALID, 1, 1)));
    assert_eq!(ledger.pending_losers(key(FOR_INVALID, 1, 1)), None);
    assert_eq!(ledger.winners(key(FOR_INVALID, 1, 1)), Vec::<u64>::new());
}

#[test]
fn an_entry_is_kept_under_kind_session_and_candidate() {
    let mut ledger: Ledger<u64> = Ledger::new();
    assert!(ledger.insert(key(FOR_INVALID, 4, 1), losers(&[2, 1]), vec![7, 8]));
    assert!(ledger.insert(key(AGAINST_VALID, 4, 1), losers(&[3]), vec![9]));
    assert!(ledger.insert(key(FOR_INVALID, 5, 1), losers(&[4]), vec![]));
    assert!(ledger.insert(key(FOR_INVALID, 4, 2), losers(&[5]), vec![6]));
    assert_eq!(ledger.len(), 4);
    assert_eq!(ledger.pending_losers(key(FOR_INVALID, 4, 1)), Some(vec![1, 2]));
    assert_eq!(ledger.winners(key(FOR_INVALID, 4, 1)), vec![7, 8]);
    assert_eq!(ledger.pending_losers(key(AGAINST_VALID, 4, 1)), Some(vec![3]));
    assert_eq!(ledger.winners(key(AGAINST_VALID, 4, 1)), vec![9]);
    assert_eq!(ledger.pending_losers(key(FOR_INVALID, 5, 1)), Some(vec![4]));
    assert_eq!(ledger.pending_losers(key(FOR_INVALID, 4, 2)), Some(vec![5]));
    assert_eq!(ledger.pending_losers(key(AGAINST_VALID, 5, 1)), None);
}

#[test]
fn an_entry_replaces_the_one_under_its_key() {
    let mut ledger: Ledger<u64> = Ledger::new();
    assert!(ledger.insert(key(FOR_INVALID, 4, 1), losers(&[2, 1]), vec![7, 8]));
    assert!(ledger.insert(key(FOR_INVALID, 4, 1), losers(&[6]), vec![9]));
    assert_eq!(ledger.len(), 1);
    assert_eq!(ledger.pending_losers(key(FOR_INVALID, 4, 1)), Some(vec![6]));
    assert_eq!(ledger.winners(key(FOR_INVALID, 4, 1)), vec![9]);
}

#[test]
fn an_entry_without_losers_is_not_kept() {
    let mut ledger: Ledger<u64> = Ledger::new();
    assert!(!ledger.insert(key(FOR_INVALID, 4, 1), losers(&[]), vec![7]));
    assert_eq!(ledger.len(), 0);
    assert!(ledger.insert(key(FOR_INVALID, 4, 1), losers(&[1]), vec![7]));
    assert!(!ledger.insert(key(FOR_INVALID, 4, 1), losers(&[]), vec![8]));
    assert_eq!(ledger.pending_losers(key(FOR_INVALID, 4, 1)), Some(vec![1]));
    assert_eq!(ledger.winners(key(FOR_INVALID, 4, 1)), vec![7]);
}

#[test]
fn taking_a_loser_shrinks_the_entry_and_the_last_one_removes_it() {
    let mut ledger: Ledger<u64> = Ledger::new();
    let at = key(FOR_INVALID, 4, 1);
    ledger.insert(at, losers(&[1, 2, 3]), vec![7, 8]);

    assert_eq!(ledger.take_loser(at, 2, WinnersLookup::ForInvalid), Ok(vec![7, 8]));
    assert_eq!(ledger.pending_losers(at), Some(vec![1, 3]));
    assert_eq!(ledger.take_loser(at, 2, WinnersLookup::ForInvalid), Err(Error::InvalidValidatorIndex));
    assert_eq!(ledger.take_loser(at, 9, WinnersLookup::ForInvalid), Err(Error::InvalidValidatorIndex));
    assert_eq!(ledger.pending_losers(at), Some(vec![1, 3]));

    assert_eq!(ledger.take_loser(at, 3, WinnersLookup::SameKind), Ok(vec![7, 8]));
    assert_eq!(ledger.take_loser(at, 1, WinnersLookup::SameKind), Ok(vec![7, 8]));
    assert_eq!(ledger.len(), 0);
    assert_eq!(ledger.winners(at), Vec::<u64>::new());
    assert_eq!(ledger.take_loser(at, 1, WinnersLookup::SameKind), Err(Error::InvalidCandidateHash));
}

#[test]
fn taking_from_a_missing_entry_changes_nothing() {
    let mut ledger: Ledger<u64> = Ledger::new();
    ledger.insert(key(FOR_INVALID, 4, 1), losers(&[1]), vec![7]);
    for missing in [key(AGAINST_VALID, 4, 1), key(FOR_INVALID, 5, 1), key(FOR_INVALID, 4, 2)] {
        assert_eq!(
            ledger.take_loser(missing, 1, WinnersLookup::ForInvalid),
            Err(Error::InvalidCandidateHash)
        );
    }
    assert_eq!(ledger.len(), 1);
    assert_eq!(ledger.pending_losers(key(FOR_INVALID, 4, 1)), Some(vec![1]));
}

#[test]
fn winners_are_looked_up_as_told() {
    let mut ledger: Ledger<u64> = Ledger::new();
    ledger.insert(key(FOR_INVALID, 4, 1), losers(&[1]), vec![7]);
    ledger.insert(key(AGAINST_VALID, 4, 1), losers(&[2, 3, 4]), vec![8]);
    let at = key(AGAINST_VALID, 4, 1);
    assert_eq!(ledger.take_loser(at, 2, WinnersLookup::ForInvalid), Ok(vec![7]));
    assert_eq!(ledger.take_loser(at, 3, WinnersLookup::SameKind), Ok(vec![8]));
    // once the entry about the invalid candidate is gone there is nobody to credit
    assert_eq!(ledger.take_loser(key(FOR_INVALID, 4, 1), 1, WinnersLookup::ForInvalid), Ok(vec![7]));
    assert_eq!(ledger.take_loser(at, 4, WinnersLookup::ForInvalid), Ok(vec![]));
    assert_eq!(ledger.len(), 0);
}

#[test]
fn a_session_is_removed_as_a_whole() {
    let mut ledger: Ledger<u64> = Ledger::new();
    ledger.insert(key(FOR_INVALID, 4, 1), losers(&[1]), vec![7]);
    ledger.insert(key(FOR_INVALID, 5, 1), losers(&[2]), vec![8]);
    ledger.insert(key(AGAINST_VALID, 4, 2), losers(&[3]), vec![9]);
    ledger.insert(key(AGAINST_VALID, 6, 2), losers(&[4]), vec![]);

    let dropped = ledger.remove_session(4);
    assert_eq!(dropped.len(), 2);
    assert_eq!(dropped.pending_losers(key(FOR_INVALID, 4, 1)), Some(vec![1]));
    assert_eq!(dropped.winners(key(AGAINST_VALID, 4, 2)), vec![9]);
    assert_eq!(ledger.len(), 2);
    assert!(ledger.contains(key(FOR_INVALID, 5, 1)));
    assert!(ledger.contains(key(AGAINST_VALID, 6, 2)));
    assert!(!ledger.contains(key(FOR_INVALID, 4, 1)));

    let dropped = ledger.remove_session(4);
    assert_eq!(dropped.len(), 0);
    assert_eq!(ledger.len(), 2);
}

#[test]
fn entries_go_out_and_come_back() {
    let mut ledger: Ledger<u64> = Ledger::new();
    ledger.insert(key(FOR_INVALID, 4, 1), losers(&[1, 5]), vec![7]);
    ledger.insert(key(AGAINST_VALID, 4, 2), losers(&[3]), vec![9, 9]);
    let entries = ledger.into_entries();
    assert_eq!(
        entries,
        vec![
            entry(key(FOR_INVALID, 4, 1), &[1, 5], &[7]),
            entry(key(AGAINST_VALID, 4, 2), &[3], &[9, 9]),
        ]
    );
    let back = Ledger::from_entries(entries);
    assert_eq!(back.len(), 2);
    assert_eq!(back.pending_losers(key(FOR_INVALID, 4, 1)), Some(vec![1, 5]));
    assert_eq!(back.winners(key(AGAINST_VALID, 4, 2)), vec![9, 9]);
}

#[test]
fn entries_that_repeat_a_key_or_have_no_loser_are_mended() {
    let ledger = Ledger::from_entries(vec![
        entry(key(FOR_INVALID, 4, 1), &[1], &[7]),
        entry(key(FOR_INVALID, 4, 2), &[], &[7]),
        entry(key(FOR_INVALID, 4, 1), &[2], &[8]),
    ]);
    assert_eq!(ledger.len(), 1);
    assert_eq!(ledger.pending_losers(key(FOR_INVALID, 4, 1)), Some(vec![2]));
    assert_eq!(ledger.winners(key(FOR_INVALID, 4, 1)), vec![8]);
}
