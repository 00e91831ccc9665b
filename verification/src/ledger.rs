//! The ledger of pending slashes.
//!
//! A dispute about a past session leaves an entry here: the losers that still
//! wait for their identification, and the winners that are credited once a
//! loser is reported. An entry is named by the kind of offence, the session and
//! the candidate. It shrinks by one loser with each accepted report and goes
//! when its last loser is reported or when its session is pruned.
use crate::error::Error;
use crate::losers::{ascending, ascending_indices, lists_ascending, Losers, Winners};
use crate::offence::SlashingOffenceKind;
use crate::primitives::{CandidateHash, SessionIndex, ValidatorIndex};
use vstd::prelude::*;

verus! {

/// What names an entry of the ledger.
#[derive(Clone, Copy, Debug, Eq, Hash)]
pub struct SlashKey {
    /// The kind of offence that the losers are slashed for.
    pub kind: SlashingOffenceKind,
    /// The session of the dispute.
    pub session_index: SessionIndex,
    /// The disputed candidate.
    pub candidate_hash: CandidateHash,
}

impl PartialEq for SlashKey {
    fn eq(&self, other: &Self) -> (same: bool) {
        self.kind == other.kind && self.session_index == other.session_index
            && self.candidate_hash == other.candidate_hash
    }
}

impl vstd::std_specs::cmp::PartialEqSpecImpl for SlashKey {
    open spec fn obeys_eq_spec() -> bool {
        true
    }

    open spec fn eq_spec(&self, other: &Self) -> bool {
        *self == *other
    }
}

/// Whose winners are credited when a loser is reported.
///
/// The winners of a dispute are kept with its losers, under the kind of the
/// offence. Reports of either kind have so far credited the winners kept
/// under `ForInvalid`, which leaves the winners of a dispute about a valid
/// candidate written and never read. Whether that is meant is an open
/// question; `SameKind` is the other reading.
#[derive(Clone, Copy, Debug, PartialEq, Eq, Hash, Structural)]
pub enum WinnersLookup {
    /// The winners kept for the dispute as one about an invalid candidate,
    /// whatever the kind of the offence that is reported.
    ForInvalid,
    /// The winners kept with the losers that the report names.
    SameKind,
}

/// What an entry of the ledger holds.
pub struct Pending<A> {
    /// The losers that are not reported yet.
    pub losers: Set<ValidatorIndex>,
    /// The accounts on the winning side, in the order in which they were
    /// resolved.
    pub winners: Seq<A>,
}

/// An entry of the ledger.
#[derive(Debug, PartialEq, Eq)]
pub struct PendingSlash<A> {
    /// The kind of offence that the losers are slashed for.
    pub kind: SlashingOffenceKind,
    /// The session of the dispute.
    pub session_index: SessionIndex,
    /// The disputed candidate.
    pub candidate_hash: CandidateHash,
    /// The losers that are not reported yet.
    pub losers: Losers,
    /// The accounts on the winning side.
    pub winners: Winners<A>,
}

impl<A> PendingSlash<A> {
    /// The name of this entry.
    pub open spec fn key(&self) -> SlashKey {
        SlashKey {
            kind: self.kind,
            session_index: self.session_index,
            candidate_hash: self.candidate_hash,
        }
    }

    /// What this entry holds.
    pub open spec fn content(&self) -> Pending<A> {
        Pending { losers: self.losers@, winners: self.winners@ }
    }
}

/// The pending slashes, each under its key.
pub struct Ledger<A> {
    entries: Vec<PendingSlash<A>>,
}

/// The keys of the entries about session `session_index`.
pub open spec fn keys_of_session(session_index: SessionIndex) -> Set<SlashKey> {
    Set::new(|key: SlashKey| key.session_index == session_index)
}

/// The key under which the winners for a report under `key` are looked up.
pub open spec fn winners_key(key: SlashKey, lookup: WinnersLookup) -> SlashKey {
    match lookup {
        WinnersLookup::ForInvalid => SlashKey {
            kind: SlashingOffenceKind::ForInvalid,
            session_index: key.session_index,
            candidate_hash: key.candidate_hash,
        },
        WinnersLookup::SameKind => key,
    }
}

/// The winners kept under `key`; none where there is no such entry.
pub open spec fn winners_at<A>(ledger: Map<SlashKey, Pending<A>>, key: SlashKey) -> Seq<A> {
    if ledger.contains_key(key) {
        ledger[key].winners
    } else {
        Seq::empty()
    }
}

/// The ledger after loser `validator_index` has left the entry under `key`:
/// the entry goes with its last loser.
pub open spec fn without_loser<A>(
    ledger: Map<SlashKey, Pending<A>>,
    key: SlashKey,
    validator_index: ValidatorIndex,
) -> Map<SlashKey, Pending<A>> {
    let rest = ledger[key].losers.remove(validator_index);
    if rest.is_empty() {
        ledger.remove(key)
    } else {
        ledger.insert(key, Pending { losers: rest, winners: ledger[key].winners })
    }
}

/// What becomes of the ledger when loser `validator_index` of the entry under
/// `key` is reported: the ledger without that loser, or the reason why there
/// is nothing to take.
pub open spec fn take_loser_from<A>(
    ledger: Map<SlashKey, Pending<A>>,
    key: SlashKey,
    validator_index: ValidatorIndex,
) -> Result<Map<SlashKey, Pending<A>>, Error> {
    if !ledger.contains_key(key) {
        Err(Error::InvalidCandidateHash)
    } else if !ledger[key].losers.contains(validator_index) {
        Err(Error::InvalidValidatorIndex)
    } else {
        Ok(without_loser(ledger, key, validator_index))
    }
}

/// Whether no entry of `ledger` is without losers.
pub open spec fn no_entry_is_empty<A>(ledger: Map<SlashKey, Pending<A>>) -> bool {
    forall|key: SlashKey| #[trigger] ledger.contains_key(key) ==> !ledger[key].losers.is_empty()
}

spec fn listed<A>(entries: Seq<PendingSlash<A>>, key: SlashKey) -> bool {
    exists|i: int| 0 <= i < entries.len() && #[trigger] entries[i].key() == key
}

spec fn position<A>(entries: Seq<PendingSlash<A>>, key: SlashKey) -> int {
    choose|i: int| 0 <= i < entries.len() && #[trigger] entries[i].key() == key
}

spec fn listing<A>(entries: Seq<PendingSlash<A>>) -> Map<SlashKey, Pending<A>> {
    Map::new(
        |key: SlashKey| listed(entries, key),
        |key: SlashKey| entries[position(entries, key)].content(),
    )
}

spec fn keys_distinct<A>(entries: Seq<PendingSlash<A>>) -> bool {
    forall|i: int, j: int|
        0 <= i < j < entries.len() ==> #[trigger] entries[i].key() != #[trigger] entries[j].key()
}

spec fn entries_ok<A>(entries: Seq<PendingSlash<A>>) -> bool {
    &&& keys_distinct(entries)
    &&& forall|i: int| 0 <= i < entries.len() ==> !(#[trigger] entries[i]).losers@.is_empty()
}

spec fn splits_into<A>(
    whole: Map<SlashKey, Pending<A>>,
    kept: Map<SlashKey, Pending<A>>,
    gone: Map<SlashKey, Pending<A>>,
) -> bool {
    &&& forall|key: SlashKey|
        #![trigger whole.contains_key(key)]
        #![trigger kept.contains_key(key)]
        #![trigger gone.contains_key(key)]
        whole.contains_key(key) <==> kept.contains_key(key) || gone.contains_key(key)
    &&& forall|key: SlashKey|
        #![trigger kept.contains_key(key)]
        #![trigger gone.contains_key(key)]
        !(kept.contains_key(key) && gone.contains_key(key))
    &&& forall|key: SlashKey| #[trigger] kept.contains_key(key) ==> kept[key] == whole[key]
    &&& forall|key: SlashKey| #[trigger] gone.contains_key(key) ==> gone[key] == whole[key]
}

proof fn lemma_listing_at<A>(entries: Seq<PendingSlash<A>>, i: int)
    requires
        keys_distinct(entries),
        0 <= i < entries.len(),
    ensures
        listing(entries).contains_key(entries[i].key()),
        listing(entries)[entries[i].key()] == entries[i].content(),
{
    let key = entries[i].key();
    assert(listed(entries, key));
    let p = position(entries, key);
    assert(0 <= p < entries.len() && entries[p].key() == key);
    if p < i {
        assert(entries[p].key() != entries[i].key());
    } else if i < p {
        assert(entries[i].key() != entries[p].key());
    }
}

proof fn lemma_listing_push<A>(entries: Seq<PendingSlash<A>>, entry: PendingSlash<A>)
    requires
        keys_distinct(entries),
        !listed(entries, entry.key()),
    ensures
        keys_distinct(entries.push(entry)),
        listing(entries.push(entry)) == listing(entries).insert(entry.key(), entry.content()),
{
    let grown = entries.push(entry);
    let n: int = entries.len() as int;
    assert forall|i: int, j: int| 0 <= i < j < grown.len() implies #[trigger] grown[i].key()
        != #[trigger] grown[j].key() by {
        if j == n {
            assert(grown[i] == entries[i]);
            assert(entries[i].key() != entry.key());
        } else {
            assert(grown[i] == entries[i] && grown[j] == entries[j]);
        }
    }
    let left = listing(grown);
    let right = listing(entries).insert(entry.key(), entry.content());
    assert forall|key: SlashKey| left.contains_key(key) <==> right.contains_key(key) by {
        if listed(grown, key) {
            let p = position(grown, key);
            if p < n {
                assert(entries[p].key() == key);
            }
        }
        if listed(entries, key) {
            let p = position(entries, key);
            assert(grown[p].key() == key);
        }
        if key == entry.key() {
            assert(grown[n].key() == key);
        }
    }
    assert forall|key: SlashKey| #[trigger] left.contains_key(key) implies left[key]
        == right[key] by {
        if key == entry.key() {
            lemma_listing_at(grown, n);
        } else {
            let p = position(entries, key);
            assert(grown[p] == entries[p]);
            lemma_listing_at(grown, p);
            lemma_listing_at(entries, p);
        }
    }
    assert(left =~= right);
}

proof fn lemma_listing_remove<A>(entries: Seq<PendingSlash<A>>, i: int)
    requires
        keys_distinct(entries),
        0 <= i < entries.len(),
    ensures
        keys_distinct(entries.remove(i)),
        listing(entries.remove(i)) == listing(entries).remove(entries[i].key()),
{
    let shrunk = entries.remove(i);
    assert forall|a: int, b: int| 0 <= a < b < shrunk.len() implies #[trigger] shrunk[a].key()
        != #[trigger] shrunk[b].key() by {
        let a0 = if a < i { a } else { a + 1 };
        let b0 = if b < i { b } else { b + 1 };
        assert(shrunk[a] == entries[a0] && shrunk[b] == entries[b0]);
        assert(entries[a0].key() != entries[b0].key());
    }
    let left = listing(shrunk);
    let right = listing(entries).remove(entries[i].key());
    assert forall|key: SlashKey| left.contains_key(key) <==> right.contains_key(key) by {
        if listed(shrunk, key) {
            let p = position(shrunk, key);
            let p0 = if p < i { p } else { p + 1 };
            assert(shrunk[p] == entries[p0]);
            assert(entries[p0].key() == key);
            if p0 < i {
                assert(entries[p0].key() != entries[i].key());
            } else {
                assert(entries[i].key() != entries[p0].key());
            }
        }
        if listed(entries, key) && key != entries[i].key() {
            let p = position(entries, key);
            let q = if p < i { p } else { p - 1 };
            assert(shrunk[q] == entries[p]);
            assert(shrunk[q].key() == key);
        }
    }
    assert forall|key: SlashKey| #[trigger] left.contains_key(key) implies left[key]
        == right[key] by {
        let p = position(entries, key);
        let q = if p < i { p } else { p - 1 };
        assert(shrunk[q] == entries[p]);
        lemma_listing_at(shrunk, q);
        lemma_listing_at(entries, p);
    }
    assert(left =~= right);
}

proof fn lemma_listing_update<A>(entries: Seq<PendingSlash<A>>, i: int, entry: PendingSlash<A>)
    requires
        keys_distinct(entries),
        0 <= i < entries.len(),
        entry.key() == entries[i].key(),
    ensures
        keys_distinct(entries.update(i, entry)),
        listing(entries.update(i, entry)) == listing(entries).insert(entry.key(), entry.content()),
{
    let changed = entries.update(i, entry);
    assert forall|a: int, b: int| 0 <= a < b < changed.len() implies #[trigger] changed[a].key()
        != #[trigger] changed[b].key() by {
        assert(changed[a].key() == entries[a].key());
        assert(changed[b].key() == entries[b].key());
        assert(entries[a].key() != entries[b].key());
    }
    let left = listing(changed);
    let right = listing(entries).insert(entry.key(), entry.content());
    assert forall|key: SlashKey| left.contains_key(key) <==> right.contains_key(key) by {
        if listed(changed, key) {
            let p = position(changed, key);
            assert(entries[p].key() == key);
        }
        if listed(entries, key) {
            let p = position(entries, key);
            assert(changed[p].key() == key);
        }
        if key == entry.key() {
            assert(changed[i].key() == key);
        }
    }
    assert forall|key: SlashKey| #[trigger] left.contains_key(key) implies left[key]
        == right[key] by {
        if key == entry.key() {
            lemma_listing_at(changed, i);
        } else {
            let p = position(entries, key);
            assert(p != i);
            assert(changed[p] == entries[p]);
            lemma_listing_at(changed, p);
            lemma_listing_at(entries, p);
        }
    }
    assert(left =~= right);
}

proof fn lemma_listing_size<A>(entries: Seq<PendingSlash<A>>)
    requires
        keys_distinct(entries),
    ensures
        listing(entries).dom().finite(),
        listing(entries).dom().len() == entries.len(),
    decreases entries.len(),
{
    if entries.len() == 0 {
        assert(listing(entries).dom() =~= Set::<SlashKey>::empty());
    } else {
        let before = entries.drop_last();
        let last = entries.last();
        let n: int = before.len() as int;
        assert forall|i: int, j: int| 0 <= i < j < before.len() implies #[trigger] before[i].key()
            != #[trigger] before[j].key() by {
            assert(before[i] == entries[i] && before[j] == entries[j]);
        }
        if listed(before, last.key()) {
            let p = position(before, last.key());
            assert(before[p] == entries[p]);
            assert(entries[p].key() != entries[n].key());
        }
        lemma_listing_size(before);
        lemma_listing_push(before, last);
        assert(before.push(last) =~= entries);
        assert(listing(entries).dom() =~= listing(before).dom().insert(last.key()));
    }
}

/// The ledger that holds `entries` on top of `ledger`: each is put under its
/// key, in place of what was there, and one without losers is passed over.
pub open spec fn with_entries<A>(
    ledger: Map<SlashKey, Pending<A>>,
    entries: Seq<PendingSlash<A>>,
) -> Map<SlashKey, Pending<A>>
    decreases entries.len(),
{
    if entries.len() == 0 {
        ledger
    } else {
        let before = with_entries(ledger, entries.drop_last());
        if entries.last().losers@.is_empty() {
            before
        } else {
            before.insert(entries.last().key(), entries.last().content())
        }
    }
}

proof fn lemma_with_entries_is_listing<A>(entries: Seq<PendingSlash<A>>)
    requires
        entries_ok(entries),
    ensures
        with_entries(Map::empty(), entries) == listing(entries),
    decreases entries.len(),
{
    if entries.len() == 0 {
        assert(listing(entries) =~= Map::<SlashKey, Pending<A>>::empty());
    } else {
        let before = entries.drop_last();
        let last = entries.last();
        let n: int = before.len() as int;
        assert forall|i: int, j: int| 0 <= i < j < before.len() implies #[trigger] before[i].key()
            != #[trigger] before[j].key() by {
            assert(before[i] == entries[i] && before[j] == entries[j]);
        }
        assert forall|i: int| 0 <= i < before.len() implies !(#[trigger] before[i]).losers@.is_empty() by {
            assert(before[i] == entries[i]);
        }
        if listed(before, last.key()) {
            let p = position(before, last.key());
            assert(before[p] == entries[p]);
            assert(entries[p].key() != entries[n].key());
        }
        lemma_with_entries_is_listing(before);
        lemma_listing_push(before, last);
        assert(before.push(last) =~= entries);
        assert(!entries[n].losers@.is_empty());
    }
}

/// A copy of `accounts`.
pub fn copy_accounts<A: Copy>(accounts: &Vec<A>) -> (copy: Vec<A>)
    ensures
        copy@ == accounts@,
{
    let mut copy: Vec<A> = Vec::new();
    let mut i: usize = 0;
    while i < accounts.len()
        invariant
            i <= accounts.len(),
            copy@ == accounts@.take(i as int),
        decreases accounts.len() - i,
    {
        copy.push(accounts[i]);
        assert(accounts@.take(i + 1) == accounts@.take(i as int).push(accounts@[i as int]));
        i += 1;
    }
    assert(accounts@.take(accounts.len() as int) == accounts@);
    copy
}

impl<A> View for Ledger<A> {
    type V = Map<SlashKey, Pending<A>>;

    closed spec fn view(&self) -> Map<SlashKey, Pending<A>> {
        listing(self.entries@)
    }
}

impl<A> Ledger<A> {
    /// Whether no two entries share a key and no entry is without losers.
    pub closed spec fn wf(&self) -> bool {
        entries_ok(self.entries@)
    }

    /// A ledger that is well formed holds no entry without losers.
    pub proof fn lemma_no_entry_is_empty(&self)
        requires
            self.wf(),
        ensures
            no_entry_is_empty(self@),
    {
        assert forall|key: SlashKey| #[trigger] self@.contains_key(key) implies !self@[key].losers.is_empty() by {
            let p = position(self.entries@, key);
            lemma_listing_at(self.entries@, p);
        }
    }

    /// An empty ledger.
    pub fn new() -> (ledger: Self)
        ensures
            ledger.wf(),
            ledger@ == Map::<SlashKey, Pending<A>>::empty(),
    {
        let ledger = Ledger { entries: Vec::new() };
        assert(ledger@ =~= Map::<SlashKey, Pending<A>>::empty());
        ledger
    }

    /// The number of entries.
    pub fn len(&self) -> (n: usize)
        requires
            self.wf(),
        ensures
            self@.dom().finite(),
            n == self@.dom().len(),
    {
        proof {
            lemma_listing_size(self.entries@);
        }
        self.entries.len()
    }

    /// The entries of the ledger as a list: one for each key, and none
    /// without losers.
    pub fn into_entries(self) -> (entries: Vec<PendingSlash<A>>)
        requires
            self.wf(),
        ensures
            with_entries(Map::empty(), entries@) == self@,
            entries@.len() == self@.dom().len(),
    {
        proof {
            lemma_with_entries_is_listing(self.entries@);
            lemma_listing_size(self.entries@);
        }
        self.entries
    }

    fn find(&self, key: SlashKey) -> (at: Option<usize>)
        requires
            self.wf(),
        ensures
            match at {
                Some(i) => i < self.entries@.len() && self.entries@[i as int].key() == key
                    && self@.contains_key(key) && self@[key] == self.entries@[i as int].content(),
                None => !self@.contains_key(key),
            },
    {
        let mut i: usize = 0;
        while i < self.entries.len()
            invariant
                self.wf(),
                i <= self.entries.len(),
                forall|j: int| 0 <= j < i ==> (#[trigger] self.entries@[j]).key() != key,
            decreases self.entries.len() - i,
        {
            let entry = &self.entries[i];
            if entry.kind == key.kind && entry.session_index == key.session_index
                && entry.candidate_hash == key.candidate_hash {
                proof {
                    lemma_listing_at(self.entries@, i as int);
                }
                return Some(i);
            }
            i += 1;
        }
        None
    }

    /// Whether there is an entry under `key`.
    pub fn contains(&self, key: SlashKey) -> (found: bool)
        requires
            self.wf(),
        ensures
            found == self@.contains_key(key),
    {
        self.find(key).is_some()
    }

    /// The losers that wait under `key`, from the least index to the greatest.
    pub fn pending_losers(&self, key: SlashKey) -> (losers: Option<Vec<ValidatorIndex>>)
        requires
            self.wf(),
        ensures
            losers is Some == self@.contains_key(key),
            losers matches Some(indices) ==> indices@ == ascending(self@[key].losers)
                && lists_ascending(indices@, self@[key].losers),
    {
        match self.find(key) {
            Some(i) => Some(ascending_indices(&self.entries[i].losers)),
            None => None,
        }
    }
}

impl<A: Copy> Ledger<A> {
    /// The winners kept under `key`; none where there is no such entry.
    pub fn winners(&self, key: SlashKey) -> (winners: Vec<A>)
        requires
            self.wf(),
        ensures
            winners@ == winners_at(self@, key),
    {
        match self.find(key) {
            Some(i) => copy_accounts(&self.entries[i].winners),
            None => Vec::new(),
        }
    }

    /// Puts `losers` and `winners` under `key`, in place of what was there.
    /// A dispute without losers leaves nothing to wait for: the ledger stays
    /// as it is and the answer is `false`.
    pub fn insert(&mut self, key: SlashKey, losers: Losers, winners: Vec<A>) -> (kept: bool)
        requires
            old(self).wf(),
        ensures
            final(self).wf(),
            kept == !losers@.is_empty(),
            kept ==> final(self)@ == old(self)@.insert(
                key,
                Pending { losers: losers@, winners: winners@ },
            ),
            !kept ==> final(self)@ == old(self)@,
    {
        if losers.is_empty() {
            return false;
        }
        let entry = PendingSlash {
            kind: key.kind,
            session_index: key.session_index,
            candidate_hash: key.candidate_hash,
            losers,
            winners,
        };
        match self.find(key) {
            Some(i) => {
                proof {
                    lemma_listing_update(self.entries@, i as int, entry);
                }
                self.entries[i] = entry;
            },
            None => {
                proof {
                    lemma_listing_push(self.entries@, entry);
                }
                self.entries.push(entry);
            },
        }
        true
    }

    /// Takes loser `validator_index` out of the entry under `key` and hands
    /// back the winners that the report of this loser credits. The entry goes
    /// with its last loser.
    ///
    /// Without an entry under `key` the answer is `InvalidCandidateHash`, and
    /// `InvalidValidatorIndex` where the entry does not hold the loser; the
    /// ledger then stays as it is.
    pub fn take_loser(
        &mut self,
        key: SlashKey,
        validator_index: ValidatorIndex,
        lookup: WinnersLookup,
    ) -> (taken: Result<Vec<A>, Error>)
        requires
            old(self).wf(),
        ensures
            final(self).wf(),
            match take_loser_from(old(self)@, key, validator_index) {
                Ok(rest) => {
                    &&& final(self)@ == rest
                    &&& taken matches Ok(winners) && winners@ == winners_at(
                        old(self)@,
                        winners_key(key, lookup),
                    )
                },
                Err(reason) => taken == Err::<Vec<A>, Error>(reason) && final(self)@ == old(self)@,
            },
    {
        let at = match self.find(key) {
            Some(i) => i,
            None => {
                return Err(Error::InvalidCandidateHash);
            },
        };
        if !self.entries[at].losers.contains(&validator_index) {
            return Err(Error::InvalidValidatorIndex);
        }
        let winners = match lookup {
            WinnersLookup::SameKind => self.winners(key),
            WinnersLookup::ForInvalid => self.winners(
                SlashKey {
                    kind: SlashingOffenceKind::ForInvalid,
                    session_index: key.session_index,
                    candidate_hash: key.candidate_hash,
                },
            ),
        };
        let ghost before = self.entries@;
        self.entries[at].losers.remove(&validator_index);
        if self.entries[at].losers.is_empty() {
            let _ = self.entries.remove(at);
            proof {
                lemma_listing_remove(before, at as int);
                assert(self.entries@ =~= before.remove(at as int));
            }
        } else {
            proof {
                lemma_listing_update(before, at as int, self.entries@[at as int]);
                assert(self.entries@ =~= before.update(at as int, self.entries@[at as int]));
            }
        }
        Ok(winners)
    }

    /// Takes every entry about session `session_index` out of the ledger and
    /// hands them back as a ledger of their own.
    pub fn remove_session(&mut self, session_index: SessionIndex) -> (dropped: Ledger<A>)
        requires
            old(self).wf(),
        ensures
            final(self).wf(),
            dropped.wf(),
            final(self)@ == old(self)@.remove_keys(keys_of_session(session_index)),
            dropped@ == old(self)@.restrict(keys_of_session(session_index)),
    {
        let mut dropped: Vec<PendingSlash<A>> = Vec::new();
        let mut i: usize = 0;
        assert(listing(dropped@) =~= Map::<SlashKey, Pending<A>>::empty());
        while i < self.entries.len()
            invariant
                i <= self.entries.len(),
                entries_ok(self.entries@),
                entries_ok(dropped@),
                forall|j: int|
                    0 <= j < i ==> (#[trigger] self.entries@[j]).session_index != session_index,
                forall|j: int|
                    0 <= j < dropped@.len() ==> (#[trigger] dropped@[j]).session_index
                        == session_index,
                splits_into(old(self)@, listing(self.entries@), listing(dropped@)),
            decreases self.entries.len() - i,
        {
            if self.entries[i].session_index == session_index {
                let ghost before = self.entries@;
                let ghost gone = dropped@;
                let entry = self.entries.remove(i);
                proof {
                    lemma_listing_at(before, i as int);
                    assert(entry == before[i as int]);
                    assert(listing(before).contains_key(entry.key()));
                    assert(!listing(gone).contains_key(entry.key()));
                    assert(!listed(gone, entry.key()));
                    lemma_listing_remove(before, i as int);
                    lemma_listing_push(gone, entry);
                    assert(splits_into(
                        old(self)@,
                        listing(before).remove(entry.key()),
                        listing(gone).insert(entry.key(), entry.content()),
                    ));
                }
                dropped.push(entry);
            } else {
                i += 1;
            }
        }
        let dropped = Ledger { entries: dropped };
        proof {
            let kept_map = listing(self.entries@);
            let dropped_map = listing(dropped.entries@);
            assert forall|key: SlashKey| kept_map.contains_key(key) implies key.session_index
                != session_index by {
                let p = position(self.entries@, key);
                assert(self.entries@[p].session_index != session_index);
            }
            assert forall|key: SlashKey| dropped_map.contains_key(key) implies key.session_index
                == session_index by {
                let p = position(dropped.entries@, key);
                assert(dropped.entries@[p].session_index == session_index);
            }
            assert(splits_into(old(self)@, kept_map, dropped_map));
            assert(kept_map =~= old(self)@.remove_keys(keys_of_session(session_index)));
            assert(dropped_map =~= old(self)@.restrict(keys_of_session(session_index)));
        }
        dropped
    }

    /// The ledger that holds `entries`: each is put under its key, in place
    /// of an earlier one with that key, and one without losers is passed
    /// over.
    pub fn from_entries(entries: Vec<PendingSlash<A>>) -> (ledger: Self)
        ensures
            ledger.wf(),
            ledger@ == with_entries(Map::empty(), entries@),
    {
        let mut ledger = Ledger::new();
        let ghost all = entries@;
        for entry in it: entries.into_iter()
            invariant
                it.seq() == all,
                ledger.wf(),
                ledger@ == with_entries(Map::empty(), all.take(it.index())),
        {
            let key = SlashKey {
                kind: entry.kind,
                session_index: entry.session_index,
                candidate_hash: entry.candidate_hash,
            };
            proof {
                let grown = all.take(it.index() + 1);
                assert(grown.drop_last() =~= all.take(it.index()));
                assert(grown.last() == entry);
            }
            ledger.insert(key, entry.losers, entry.winners);
        }
        proof {
            assert(all.take(all.len() as int) =~= all);
        }
        ledger
    }
}

} // verus!
