//! The ways in which a request to the ledger is rejected.

use vstd::prelude::*;

verus! {

/// Why a request was rejected. A rejected request leaves the ledger as it was.
#[derive(Clone, Copy, Debug, PartialEq, Eq, Structural)]
pub enum MarketError {
    /// The token, edition, collection, listing, bid or grant does not exist.
    NotFound,
    /// The caller lacks the ownership or permission that the request needs.
    Unauthorized,
    /// The edition is locked or burned, or the bid has already been settled.
    InvalidState,
    /// A length, count or amount is outside what the ledger accepts.
    ValidationFailed,
    /// The value attached to the request is below the fee or price.
    InsufficientDeposit,
    /// The entry to be created is already there.
    AlreadyExists,
    /// The permission to be granted is already held.
    AlreadyGranted,
    /// The maintenance switch is on.
    Paused,
    /// The caller tried to bid on or buy an edition of their own.
    SelfDealing,
}

} // verus!
