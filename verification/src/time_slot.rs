//! The time slot of a dispute: the key under which its offences are told apart.
use crate::primitives::{CandidateHash, SessionIndex};
use core::cmp::Ordering;
use vstd::prelude::*;

verus! {

/// The session and the candidate of a dispute.
///
/// Two offences of one kind are the same offence when their time slots are
/// equal, so the offence sink accepts at most one report per kind and slot.
#[derive(Clone, Copy, Debug, Eq, Ord, Hash)]
pub struct DisputesTimeSlot {
    /// The session in which the candidate was backed.
    pub session_index: SessionIndex,
    /// The disputed candidate.
    pub candidate_hash: CandidateHash,
}

/// Whether `a` comes before `b` when the two are read byte by byte from the
/// front: at the first place where they differ, `a` holds the lesser byte.
pub open spec fn bytes_precede(a: Seq<u8>, b: Seq<u8>) -> bool {
    exists|i: int|
        #![trigger a[i]]
        0 <= i < a.len() && i < b.len() && a[i] < b[i] && forall|j: int|
            0 <= j < i ==> a[j] == b[j]
}

/// The first place from `from` on where `a` and `b` differ, or the length of
/// `a` if there is none.
pub open spec fn first_difference(a: Seq<u8>, b: Seq<u8>, from: int) -> int
    decreases a.len() - from,
{
    if from < 0 || from >= a.len() {
        a.len() as int
    } else if a[from] != b[from] {
        from
    } else {
        first_difference(a, b, from + 1)
    }
}

/// What `first_difference` finds: the two agree from `from` up to it, and
/// differ there if it is a place of `a`.
pub proof fn lemma_first_difference(a: Seq<u8>, b: Seq<u8>, from: int)
    requires
        0 <= from <= a.len(),
        a.len() == b.len(),
    ensures
        from <= first_difference(a, b, from) <= a.len(),
        forall|j: int| from <= j < first_difference(a, b, from) ==> a[j] == b[j],
        first_difference(a, b, from) < a.len() ==> a[first_difference(a, b, from)]
            != b[first_difference(a, b, from)],
    decreases a.len() - from,
{
    if from < a.len() && a[from] == b[from] {
        lemma_first_difference(a, b, from + 1);
    }
}

/// Two hashes that agree before place `at`, where the first holds the lesser
/// byte, are in order.
pub proof fn lemma_bytes_precede_at(a: [u8; 32], b: [u8; 32], at: usize)
    requires
        at < 32,
        a[at as int] < b[at as int],
        forall|j: int| 0 <= j < at ==> a[j] == b[j],
    ensures
        bytes_precede(a@, b@),
{
    assert(a@[at as int] < b@[at as int]);
}

impl DisputesTimeSlot {
    /// Whether this slot comes before `other`: its session is earlier, or the
    /// sessions are the same and its candidate hash comes first.
    pub open spec fn precedes(self, other: Self) -> bool {
        self.session_index < other.session_index || (self.session_index == other.session_index
            && bytes_precede(self.candidate_hash.0@, other.candidate_hash.0@))
    }

    /// How this slot stands to `other` in the order of slots.
    pub open spec fn ordering(self, other: Self) -> Ordering {
        if self.precedes(other) {
            Ordering::Less
        } else if self == other {
            Ordering::Equal
        } else {
            Ordering::Greater
        }
    }

    /// No slot comes before itself.
    pub proof fn lemma_precedes_is_irreflexive(self)
        ensures
            !self.precedes(self),
    {
    }

    /// If this slot comes before `second`, and `second` before `third`, this
    /// slot comes before `third`.
    pub proof fn lemma_precedes_is_transitive(self, second: Self, third: Self)
        requires
            self.precedes(second),
            second.precedes(third),
        ensures
            self.precedes(third),
    {
        let a = self.candidate_hash.0@;
        let b = second.candidate_hash.0@;
        let c = third.candidate_hash.0@;
        if self.session_index == second.session_index && second.session_index
            == third.session_index {
            let i = choose|i: int|
                #![trigger a[i]]
                0 <= i < a.len() && i < b.len() && a[i] < b[i] && forall|j: int|
                    0 <= j < i ==> a[j] == b[j];
            let k = choose|k: int|
                #![trigger b[k]]
                0 <= k < b.len() && k < c.len() && b[k] < c[k] && forall|j: int|
                    0 <= j < k ==> b[j] == c[j];
            let m = if i <= k {
                i
            } else {
                k
            };
            assert(a[m] < c[m]);
            assert(forall|j: int| 0 <= j < m ==> a[j] == c[j]);
        }
    }

    /// Of two slots, one comes before the other unless they are the same
    /// slot, and never both.
    pub proof fn lemma_precedes_is_total(self, other: Self)
        ensures
            self.precedes(other) || self == other || other.precedes(self),
            !(self.precedes(other) && other.precedes(self)),
            !(self.precedes(other) && self == other),
    {
        let a = self.candidate_hash.0@;
        let b = other.candidate_hash.0@;
        if self.session_index == other.session_index {
            lemma_first_difference(a, b, 0);
            let d = first_difference(a, b, 0);
            if d < a.len() {
                if a[d] < b[d] {
                    assert(bytes_precede(a, b));
                } else {
                    assert(b[d] < a[d]);
                    assert(bytes_precede(b, a));
                }
            } else {
                assert(self.candidate_hash.0 =~= other.candidate_hash.0);
            }
            if bytes_precede(a, b) && bytes_precede(b, a) {
                let i = choose|i: int|
                    #![trigger a[i]]
                    0 <= i < a.len() && i < b.len() && a[i] < b[i] && forall|j: int|
                        0 <= j < i ==> a[j] == b[j];
                let k = choose|k: int|
                    #![trigger b[k]]
                    0 <= k < b.len() && k < a.len() && b[k] < a[k] && forall|j: int|
                        0 <= j < k ==> b[j] == a[j];
                if i < k {
                    assert(b[i] == a[i]);
                } else if k < i {
                    assert(a[k] == b[k]);
                }
            }
        }
    }

    /// The slot of the dispute about `candidate_hash` in session `session_index`.
    pub fn new(session_index: SessionIndex, candidate_hash: CandidateHash) -> (slot: Self)
        ensures
            slot.session_index == session_index,
            slot.candidate_hash == candidate_hash,
    {
        Self { session_index, candidate_hash }
    }
}

impl PartialOrd for DisputesTimeSlot {
    fn partial_cmp(&self, other: &Self) -> (order: Option<Ordering>) {
        if self.session_index < other.session_index {
            return Some(Ordering::Less);
        }
        if self.session_index > other.session_index {
            return Some(Ordering::Greater);
        }
        let mut i: usize = 0;
        while i < 32
            invariant
                i <= 32,
                self.session_index == other.session_index,
                forall|j: int| 0 <= j < i ==> self.candidate_hash.0[j] == other.candidate_hash.0[j],
            decreases 32 - i,
        {
            if self.candidate_hash.0[i] < other.candidate_hash.0[i] {
                proof {
                    lemma_bytes_precede_at(self.candidate_hash.0, other.candidate_hash.0, i);
                }
                return Some(Ordering::Less);
            }
            if self.candidate_hash.0[i] > other.candidate_hash.0[i] {
                proof {
                    lemma_bytes_precede_at(other.candidate_hash.0, self.candidate_hash.0, i);
                    self.lemma_precedes_is_total(*other);
                }
                return Some(Ordering::Greater);
            }
            i += 1;
        }
        proof {
            assert(self.candidate_hash.0 =~= other.candidate_hash.0);
            self.lemma_precedes_is_irreflexive();
        }
        Some(Ordering::Equal)
    }
}

impl vstd::std_specs::cmp::PartialOrdSpecImpl for DisputesTimeSlot {
    open spec fn obeys_partial_cmp_spec() -> bool {
        true
    }

    open spec fn partial_cmp_spec(&self, other: &Self) -> Option<Ordering> {
        Some(self.ordering(*other))
    }
}

impl PartialEq for DisputesTimeSlot {
    fn eq(&self, other: &Self) -> (same: bool) {
        self.session_index == other.session_index && self.candidate_hash == other.candidate_hash
    }
}

impl vstd::std_specs::cmp::PartialEqSpecImpl for DisputesTimeSlot {
    open spec fn obeys_eq_spec() -> bool {
        true
    }

    open spec fn eq_spec(&self, other: &Self) -> bool {
        *self == *other
    }
}

} // verus!
