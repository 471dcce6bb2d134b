//! The ledger and transaction state machine of a marketplace for tokens that
//! are made of numbered, individually owned editions.
//!
//! [`NonFungibleToken`] is the ledger. Each of its operations takes the
//! calling account, the attached deposit and the time as plain values, and
//! answers with what the mathematical ledger of [`state::MarketState`]
//! gives for the request. Payments are never made here: a sale returns the
//! list of payments that are to follow it.

pub mod accounts;
pub mod admin;
pub mod catalog;
pub mod contract;
pub mod error;
pub mod laws;
pub mod marketplace;
pub mod model;
pub mod offers;
pub mod permissions;
pub mod record;
pub mod settlement;
pub mod state;
pub mod text;
pub mod transfer;
pub mod types;

pub use contract::{NonFungibleToken, NEP4};
pub use error::MarketError;
pub use model::{
    Bid, Collection, Edition, EditionState, Metadata, Payment, Token, TransferMode, TransferReason,
};
pub use record::{EscrowRecord, LedgerRecord};
pub use settlement::{payments, settle, Settlement};
pub use types::{AccountId, Balance, CollectionId, EditionNumber, TokenId, TokenPrice};
