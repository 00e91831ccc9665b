//! Deferred slashing of the validators that lost a dispute.
//!
//! A dispute that concludes about a candidate of the current session is turned
//! into an offence at once. One that concludes about a past session is kept in a
//! ledger of pending slashes until a proof of key ownership identifies each
//! loser, or until the session leaves the dispute window and is pruned.

pub mod error;
pub mod laws;
pub mod ledger;
pub mod losers;
pub mod offence;
pub mod pallet;
pub mod primitives;
pub mod punish;
pub mod reports;
pub mod time_slot;
pub mod validity;

pub use crate::error::Error;
pub use crate::ledger::{Ledger, PendingSlash, SlashKey, WinnersLookup};
pub use crate::losers::{Losers, Winners};
pub use crate::offence::{
    AgainstValidOffence, DisableStrategy, ForInvalidOffence, Perbill, SlashingOffenceKind,
};
pub use crate::pallet::{Call, Config, DisputeProof, Pallet};
pub use crate::primitives::{
    CandidateHash, Pays, SessionChangeNotification, SessionIndex, SessionInfo, ValidatorId,
    ValidatorIndex, PARACHAIN_KEY_TYPE_ID,
};
pub use crate::punish::SlashValidatorsForDisputes;
pub use crate::reports::{HandleReports, TestWeightInfo, WeightInfo};
pub use crate::time_slot::DisputesTimeSlot;
pub use crate::validity::{InvalidTransaction, TransactionSource, ValidTransaction};
