//! Plain aliases for the identifiers and amounts that run through the ledger.

use vstd::prelude::*;

verus! {

/// Sequential identifier of a token; the first token minted has id 0.
pub type TokenId = u64;

/// Number of an edition inside its token, counted from 1.
pub type EditionNumber = u64;

/// A listing price in the smallest currency unit.
pub type TokenPrice = u128;

/// Identifier of a collection; 0 is the genesis collection.
pub type CollectionId = u64;

/// An account identifier. The ledger treats it as an opaque string.
pub type AccountId = String;

/// An amount of value in the smallest currency unit.
pub type Balance = u128;

/// What an account identifier is in specifications.
pub type AccountName = Seq<char>;

} // verus!
