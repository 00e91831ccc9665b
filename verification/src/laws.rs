//! What holds of the ledger over any run of disputes, reports and sessions.
use crate::error::Error;
use crate::ledger::{keys_of_session, take_loser_from, without_loser, Pending, SlashKey};
use crate::offence::{DisableStrategy, SlashingOffenceKind};
use crate::pallet::{
    checked_report, deferred_offence, pruned, report_outcome, session_to_prune, DisputeProof,
};
use crate::primitives::{CandidateHash, SessionIndex, SessionInfoView, ValidatorIndex};
use crate::punish::immediate_offence;
use vstd::prelude::*;

verus! {

/// One thing that happens to the ledger.
pub enum LedgerStep<A> {
    /// A dispute about a past session concludes: its losers and winners are
    /// put under `key`.
    Defer { key: SlashKey, losers: Set<ValidatorIndex>, winners: Seq<A> },
    /// A loser is reported; the report is accepted if the ledger holds the
    /// loser.
    Report { key: SlashKey, validator_index: ValidatorIndex },
    /// A session begins.
    NewSession { session_index: SessionIndex, dispute_period: SessionIndex },
}

/// The ledger after one step.
pub open spec fn after_step<A>(ledger: Map<SlashKey, Pending<A>>, step: LedgerStep<A>) -> Map<
    SlashKey,
    Pending<A>,
> {
    match step {
        LedgerStep::Defer { key, losers, winners } => ledger.insert(
            key,
            Pending { losers, winners },
        ),
        LedgerStep::Report { key, validator_index } => match take_loser_from(
            ledger,
            key,
            validator_index,
        ) {
            Ok(rest) => rest,
            Err(_) => ledger,
        },
        LedgerStep::NewSession { session_index, dispute_period } => pruned(
            ledger,
            session_index,
            dispute_period,
        ),
    }
}

/// The ledger after the steps of `steps`, one after the other.
pub open spec fn after_steps<A>(ledger: Map<SlashKey, Pending<A>>, steps: Seq<LedgerStep<A>>) -> Map<
    SlashKey,
    Pending<A>,
>
    decreases steps.len(),
{
    if steps.len() == 0 {
        ledger
    } else {
        after_steps(after_step(ledger, steps.first()), steps.drop_first())
    }
}

/// Whether the ledger holds loser `validator_index` under `key`.
pub open spec fn holds_loser<A>(
    ledger: Map<SlashKey, Pending<A>>,
    key: SlashKey,
    validator_index: ValidatorIndex,
) -> bool {
    ledger.contains_key(key) && ledger[key].losers.contains(validator_index)
}

/// Whether none of `steps` puts losers under `key`.
pub open spec fn never_defers<A>(steps: Seq<LedgerStep<A>>, key: SlashKey) -> bool {
    forall|i: int|
        0 <= i < steps.len() ==> !((#[trigger] steps[i]) matches LedgerStep::Defer {
            key: deferred,
            ..
        } && deferred == key)
}

/// A report is accepted exactly when the ledger holds the loser.
pub proof fn lemma_taken_iff_held<A>(
    ledger: Map<SlashKey, Pending<A>>,
    key: SlashKey,
    validator_index: ValidatorIndex,
)
    ensures
        take_loser_from(ledger, key, validator_index) is Ok <==> holds_loser(
            ledger,
            key,
            validator_index,
        ),
{
}

/// A loser that was taken out of the ledger is not in it any more: the same
/// report is rejected when it comes again, with `InvalidValidatorIndex` while
/// other losers of the dispute wait, and with `InvalidCandidateHash` once the
/// entry has gone with its last loser.
pub proof fn lemma_loser_is_taken_once<A>(
    ledger: Map<SlashKey, Pending<A>>,
    key: SlashKey,
    validator_index: ValidatorIndex,
)
    requires
        take_loser_from(ledger, key, validator_index) is Ok,
    ensures
        ({
            let rest = take_loser_from(ledger, key, validator_index)->Ok_0;
            &&& !holds_loser(rest, key, validator_index)
            &&& rest.contains_key(key) <==> !(ledger[key].losers =~= set![validator_index])
            &&& take_loser_from(rest, key, validator_index) == Err::<
                Map<SlashKey, Pending<A>>,
                Error,
            >(
                if rest.contains_key(key) {
                    Error::InvalidValidatorIndex
                } else {
                    Error::InvalidCandidateHash
                },
            )
        }),
{
    let rest = without_loser(ledger, key, validator_index);
    let left = ledger[key].losers.remove(validator_index);
    if left.is_empty() {
        assert(ledger[key].losers =~= set![validator_index]);
    } else {
        assert(!(ledger[key].losers =~= set![validator_index])) by {
            if ledger[key].losers =~= set![validator_index] {
                assert(left =~= Set::<ValidatorIndex>::empty());
            }
        }
    }
}

/// A step that is not the conclusion of a dispute under `key` puts no loser
/// under `key`.
pub proof fn lemma_step_adds_no_loser<A>(
    ledger: Map<SlashKey, Pending<A>>,
    step: LedgerStep<A>,
    key: SlashKey,
    validator_index: ValidatorIndex,
)
    requires
        !(step matches LedgerStep::Defer { key: deferred, .. } && deferred == key),
        !holds_loser(ledger, key, validator_index),
    ensures
        !holds_loser(after_step(ledger, step), key, validator_index),
{
    let after = after_step(ledger, step);
    match step {
        LedgerStep::Defer { key: deferred, losers, winners } => {
            assert(deferred != key);
            assert(after.contains_key(key) ==> ledger.contains_key(key) && after[key]
                == ledger[key]);
        },
        LedgerStep::Report { key: reported, validator_index: taken } => {
            match take_loser_from(ledger, reported, taken) {
                Ok(rest) => {
                    assert(rest == without_loser(ledger, reported, taken));
                    if reported == key {
                        if after.contains_key(key) {
                            assert(after[key].losers == ledger[key].losers.remove(taken));
                        }
                    } else {
                        assert(after.contains_key(key) ==> ledger.contains_key(key) && after[key]
                            == ledger[key]);
                    }
                },
                Err(_) => {},
            }
        },
        LedgerStep::NewSession { session_index, dispute_period } => {
            assert(after.contains_key(key) ==> ledger.contains_key(key) && after[key]
                == ledger[key]);
        },
    }
}

/// Steps that do not conclude the dispute under `key` again put no loser
/// under `key`.
pub proof fn lemma_steps_add_no_loser<A>(
    ledger: Map<SlashKey, Pending<A>>,
    key: SlashKey,
    validator_index: ValidatorIndex,
    steps: Seq<LedgerStep<A>>,
)
    requires
        !holds_loser(ledger, key, validator_index),
        never_defers(steps, key),
    ensures
        !holds_loser(after_steps(ledger, steps), key, validator_index),
    decreases steps.len(),
{
    if steps.len() > 0 {
        let next = after_step(ledger, steps.first());
        assert(steps[0] == steps.first());
        lemma_step_adds_no_loser(ledger, steps.first(), key, validator_index);
        let later = steps.drop_first();
        assert forall|i: int| 0 <= i < later.len() implies !((#[trigger] later[i]) matches LedgerStep::Defer {
            key: deferred,
            ..
        } && deferred == key) by {
            assert(later[i] == steps[i + 1]);
        }
        lemma_steps_add_no_loser(next, key, validator_index, later);
    }
}

/// No double spend of a slash: once a report of a loser has been accepted, no
/// later report of the same loser for the same dispute and kind is, whatever
/// happens in between, as long as the dispute does not conclude again.
pub proof fn lemma_slash_is_spent_once<A>(
    ledger: Map<SlashKey, Pending<A>>,
    key: SlashKey,
    validator_index: ValidatorIndex,
    steps: Seq<LedgerStep<A>>,
)
    requires
        take_loser_from(ledger, key, validator_index) is Ok,
        never_defers(steps, key),
    ensures
        take_loser_from(
            after_steps(take_loser_from(ledger, key, validator_index)->Ok_0, steps),
            key,
            validator_index,
        ) is Err,
{
    lemma_loser_is_taken_once(ledger, key, validator_index);
    lemma_steps_add_no_loser(
        take_loser_from(ledger, key, validator_index)->Ok_0,
        key,
        validator_index,
        steps,
    );
}

/// An accepted report is accepted once: when the same report comes again, it
/// is rejected, whatever the proof of key ownership and the session record
/// are found to say then.
pub proof fn lemma_report_is_accepted_once<A, I>(
    ledger: Map<SlashKey, Pending<A>>,
    proof: DisputeProof,
    owner: Option<I>,
    info: Option<SessionInfoView>,
    later_owner: Option<I>,
    later_info: Option<SessionInfoView>,
)
    requires
        report_outcome(ledger, proof, owner, info) is Ok,
    ensures
        ({
            let rest = report_outcome(ledger, proof, owner, info)->Ok_0;
            &&& report_outcome(rest, proof, later_owner, later_info) is Err
            &&& checked_report(proof, later_owner, later_info) is Ok ==> report_outcome(
                rest,
                proof,
                later_owner,
                later_info,
            ) == Err::<Map<SlashKey, Pending<A>>, Error>(
                if rest.contains_key(proof.spec_key()) {
                    Error::InvalidValidatorIndex
                } else {
                    Error::InvalidCandidateHash
                },
            )
        }),
{
    lemma_loser_is_taken_once(ledger, proof.spec_key(), proof.validator_index);
}

/// Whether every entry of `ledger` is about a session within the dispute
/// window of session `now`: one that `now` has not left behind by more than
/// `dispute_period` sessions.
pub open spec fn within_window<A>(
    ledger: Map<SlashKey, Pending<A>>,
    now: int,
    dispute_period: SessionIndex,
) -> bool {
    forall|key: SlashKey| #[trigger]
        ledger.contains_key(key) ==> key.session_index + dispute_period + 1 > now
}

/// The session in which a step that begins in session `now` ends.
pub open spec fn session_after_step<A>(step: LedgerStep<A>, now: int) -> int {
    match step {
        LedgerStep::NewSession { session_index, .. } => session_index as int,
        _ => now,
    }
}

/// Whether `step` is orderly in session `now`: the session that begins is
/// the next one, under the one dispute period, and the dispute that
/// concludes is about a session within the window, and not about session 0,
/// whose entries are never pruned.
pub open spec fn orderly_step<A>(step: LedgerStep<A>, now: int, dispute_period: SessionIndex) -> bool {
    match step {
        LedgerStep::Defer { key, .. } => {
            &&& key.session_index >= 1
            &&& key.session_index + dispute_period + 1 > now
        },
        LedgerStep::Report { .. } => true,
        LedgerStep::NewSession { session_index, dispute_period: period } => {
            &&& session_index == now + 1
            &&& period == dispute_period
        },
    }
}

/// Whether each step of a run that begins in session `now` is orderly in the
/// session in which it begins.
pub open spec fn orderly<A>(steps: Seq<LedgerStep<A>>, now: int, dispute_period: SessionIndex) -> bool
    decreases steps.len(),
{
    if steps.len() == 0 {
        true
    } else {
        &&& orderly_step(steps.first(), now, dispute_period)
        &&& orderly(
            steps.drop_first(),
            session_after_step(steps.first(), now),
            dispute_period,
        )
    }
}

/// The session in which a run that begins in session `now` ends.
pub open spec fn session_after<A>(steps: Seq<LedgerStep<A>>, now: int) -> int
    decreases steps.len(),
{
    if steps.len() == 0 {
        now
    } else {
        session_after(steps.drop_first(), session_after_step(steps.first(), now))
    }
}

/// Whether no entry of `ledger` is about session 0.
pub open spec fn none_of_session_zero<A>(ledger: Map<SlashKey, Pending<A>>) -> bool {
    forall|key: SlashKey| #[trigger] ledger.contains_key(key) ==> key.session_index >= 1
}

/// The beginning of the next session keeps the ledger within the window: the
/// one session that leaves the window is the one that is pruned.
pub proof fn lemma_new_session_keeps_window<A>(
    ledger: Map<SlashKey, Pending<A>>,
    now: SessionIndex,
    dispute_period: SessionIndex,
)
    requires
        now < u32::MAX,
        within_window(ledger, now as int, dispute_period),
        none_of_session_zero(ledger),
    ensures
        within_window(pruned(ledger, (now + 1) as SessionIndex, dispute_period), now + 1,
            dispute_period),
        none_of_session_zero(pruned(ledger, (now + 1) as SessionIndex, dispute_period)),
{
    let next: SessionIndex = (now + 1) as SessionIndex;
    let after = pruned(ledger, next, dispute_period);
    assert forall|key: SlashKey| #[trigger] after.contains_key(key) implies key.session_index
        + dispute_period + 1 > now + 1 by {
        assert(ledger.contains_key(key));
        if key.session_index + dispute_period == now {
            assert(session_to_prune(next, dispute_period) == Some(key.session_index));
            assert(keys_of_session(key.session_index).contains(key));
        }
    }
    assert forall|key: SlashKey| #[trigger] after.contains_key(key) implies key.session_index
        >= 1 by {
        assert(ledger.contains_key(key));
    }
}

/// An orderly step keeps the ledger within the window of the session in
/// which the step ends.
pub proof fn lemma_step_keeps_window<A>(
    ledger: Map<SlashKey, Pending<A>>,
    step: LedgerStep<A>,
    now: SessionIndex,
    dispute_period: SessionIndex,
)
    requires
        within_window(ledger, now as int, dispute_period),
        none_of_session_zero(ledger),
        orderly_step(step, now as int, dispute_period),
    ensures
        within_window(after_step(ledger, step), session_after_step(step, now as int),
            dispute_period),
        none_of_session_zero(after_step(ledger, step)),
{
    let after = after_step(ledger, step);
    match step {
        LedgerStep::Defer { key, losers, winners } => {
            assert forall|k: SlashKey| #[trigger] after.contains_key(k) implies k.session_index
                + dispute_period + 1 > now && k.session_index >= 1 by {
                if k != key {
                    assert(ledger.contains_key(k));
                }
            }
        },
        LedgerStep::Report { key, validator_index } => {
            assert forall|k: SlashKey| #[trigger] after.contains_key(k) implies k.session_index
                + dispute_period + 1 > now && k.session_index >= 1 by {
                assert(ledger.contains_key(k));
            }
        },
        LedgerStep::NewSession { session_index, dispute_period: period } => {
            lemma_new_session_keeps_window(ledger, now, dispute_period);
        },
    }
}

/// The pruning bound: after any orderly run that ends in session `s`, the
/// ledger holds no entry about a session before `s - dispute_period`, and so
/// none about a session before `s - dispute_period - 1`.
pub proof fn lemma_pruning_bound<A>(
    ledger: Map<SlashKey, Pending<A>>,
    steps: Seq<LedgerStep<A>>,
    now: SessionIndex,
    dispute_period: SessionIndex,
)
    requires
        within_window(ledger, now as int, dispute_period),
        none_of_session_zero(ledger),
        orderly(steps, now as int, dispute_period),
    ensures
        within_window(after_steps(ledger, steps), session_after(steps, now as int),
            dispute_period),
        none_of_session_zero(after_steps(ledger, steps)),
        forall|key: SlashKey| #[trigger]
            after_steps(ledger, steps).contains_key(key) ==> !(key.session_index < session_after(
                steps,
                now as int,
            ) - dispute_period - 1),
    decreases steps.len(),
{
    if steps.len() > 0 {
        let step = steps.first();
        lemma_step_keeps_window(ledger, step, now, dispute_period);
        let next = after_step(ledger, step);
        match step {
            LedgerStep::NewSession { session_index, .. } => {
                lemma_pruning_bound(next, steps.drop_first(), session_index, dispute_period);
            },
            _ => {
                lemma_pruning_bound(next, steps.drop_first(), now, dispute_period);
            },
        }
    }
}

/// The severity of an offence goes by its kind, not by the path on which it
/// was filed: the offence that is filed at once for a dispute about the
/// current session, and the one that a report files for a dispute about a
/// past session, cost the same share of the stake and disable alike.
pub proof fn lemma_severity_is_the_same_on_both_paths<I>(
    kind: SlashingOffenceKind,
    session_index: SessionIndex,
    candidate_hash: CandidateHash,
    validator_set_count: u32,
    offenders: Seq<I>,
    proof: DisputeProof,
    recorded_validator_set_count: u32,
    offender: I,
)
    requires
        proof.kind == kind,
    ensures
        ({
            let immediate = immediate_offence(
                kind,
                session_index,
                candidate_hash,
                validator_set_count,
                offenders,
            );
            let deferred = deferred_offence(proof, recorded_validator_set_count, offender);
            &&& immediate.slash_fraction() == deferred.slash_fraction()
            &&& immediate.disable_strategy() == deferred.disable_strategy()
            &&& immediate.slash_fraction() == kind.severity()
            &&& immediate.disable_strategy() == kind.disabling()
        }),
{
}

/// The severity table: a vote for an invalid candidate costs the whole stake
/// and always disables, a vote against a valid one costs a hundredth and
/// never disables.
pub proof fn lemma_severity_table()
    ensures
        SlashingOffenceKind::ForInvalid.severity() == 1_000_000_000,
        SlashingOffenceKind::ForInvalid.disabling() == DisableStrategy::Always,
        SlashingOffenceKind::AgainstValid.severity() == 10_000_000,
        SlashingOffenceKind::AgainstValid.disabling() == DisableStrategy::Never,
{
}

} // verus!
