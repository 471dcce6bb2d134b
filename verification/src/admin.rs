//! What only the owner of the ledger may do: manage the minter whitelist,
//! the pause switch, the fees and limits, and the genesis collection.

use vstd::prelude::*;
use crate::accounts::{lemma_push_keeps_distinct, lemma_without_removes, without};
use crate::error::MarketError;
use crate::model::CollectionView;
use crate::state::MarketState;
use crate::text::decimal_digits;
use crate::types::{AccountName, Balance};

verus! {

/// The genesis collection as the owner creates it. It has no minters of
/// its own.
pub open spec fn genesis_collection(thumbnail: Seq<char>, timestamp: u64) -> CollectionView {
    CollectionView {
        name: "Nearfolio"@,
        description: "Nearfolio default collection."@,
        date: decimal_digits(timestamp as nat),
        thumbnail,
        creator: "nearfolio.near"@,
        minters: Seq::empty(),
    }
}

impl MarketState {
    /// Applies `next` if `caller` owns the ledger.
    pub open spec fn as_owner(self, caller: AccountName, next: MarketState) -> Result<
        MarketState,
        MarketError,
    > {
        if caller != self.owner_id {
            Err(MarketError::Unauthorized)
        } else {
            Ok(next)
        }
    }

    /// The owner whitelists a minter. Whitelisting one who is whitelisted
    /// changes nothing.
    pub open spec fn add_minter(self, minter: AccountName, caller: AccountName) -> Result<
        MarketState,
        MarketError,
    > {
        self.as_owner(
            caller,
            if self.minters.contains(minter) {
                self
            } else {
                MarketState { minters: self.minters.push(minter), ..self }
            },
        )
    }

    /// The owner takes a minter off the whitelist.
    pub open spec fn remove_minter(self, minter: AccountName, caller: AccountName) -> Result<
        MarketState,
        MarketError,
    > {
        if caller != self.owner_id {
            Err(MarketError::Unauthorized)
        } else if !self.minters.contains(minter) {
            Err(MarketError::NotFound)
        } else {
            Ok(MarketState { minters: without(self.minters, minter), ..self })
        }
    }

    /// The owner switches maintenance on or off.
    pub open spec fn set_paused(self, paused: bool, caller: AccountName) -> Result<
        MarketState,
        MarketError,
    > {
        self.as_owner(caller, MarketState { paused, ..self })
    }

    /// The owner sets the fee for minting a token.
    pub open spec fn set_mint_fee(self, fee: Balance, caller: AccountName) -> Result<
        MarketState,
        MarketError,
    > {
        self.as_owner(caller, MarketState { mint_storage_fee: fee, ..self })
    }

    /// The owner sets the fee per minted edition.
    pub open spec fn set_edition_fee(self, fee: Balance, caller: AccountName) -> Result<
        MarketState,
        MarketError,
    > {
        self.as_owner(caller, MarketState { edition_storage_fee: fee, ..self })
    }

    /// The owner sets the fee for creating a collection.
    pub open spec fn set_collection_fee(self, fee: Balance, caller: AccountName) -> Result<
        MarketState,
        MarketError,
    > {
        self.as_owner(caller, MarketState { create_collection_fee: fee, ..self })
    }

    /// The owner sets the ceiling on the editions of one token.
    pub open spec fn set_max_edition(self, value: u8, caller: AccountName) -> Result<
        MarketState,
        MarketError,
    > {
        self.as_owner(caller, MarketState { max_editions: value, ..self })
    }

    /// The owner sets the divisor that gives the platform's share of a sale.
    pub open spec fn set_trade_fee(self, fee: Balance, caller: AccountName) -> Result<
        MarketState,
        MarketError,
    > {
        self.as_owner(caller, MarketState { trade_fee: fee, ..self })
    }

    /// The owner creates the genesis collection, once, which also ends the
    /// initial pause.
    pub open spec fn generate_genesis_collection(
        self,
        thumbnail: Seq<char>,
        caller: AccountName,
        timestamp: u64,
    ) -> Result<MarketState, MarketError> {
        if caller != self.owner_id {
            Err(MarketError::Unauthorized)
        } else if self.genesis is Some {
            Err(MarketError::AlreadyExists)
        } else {
            Ok(
                MarketState {
                    genesis: Some(genesis_collection(thumbnail, timestamp)),
                    paused: false,
                    ..self
                },
            )
        }
    }
}

/// A ledger that holds what another consistent ledger holds, whatever its
/// settings, is consistent and has every edition and bid as the other has.
pub proof fn lemma_same_holdings_follow(s: MarketState, n: MarketState)
    requires
        s.inv(),
        n.minters == s.minters,
        n.tokens == s.tokens,
        n.metadata.len() == s.metadata.len(),
        n.genesis == s.genesis,
        n.collections == s.collections,
        n.editions == s.editions,
        n.states == s.states,
        n.listings == s.listings,
        n.allowances == s.allowances,
        n.bids == s.bids,
        n.escrows == s.escrows,
    ensures
        n.follows(s, None),
{
    assert(n.tokens_tile_editions());
    assert(n.listings_match_states());
    assert(n.grants_are_distinct());
    assert(n.collections_are_sound());
}

/// Changing the whitelist leaves a consistent ledger with every edition and
/// bid as it was. A minter that was taken off the whitelist is no longer on
/// it.
pub proof fn lemma_whitelist_follows(s: MarketState, minter: AccountName, caller: AccountName)
    requires
        s.inv(),
    ensures
        s.add_minter(minter, caller) matches Ok(n) ==> n.follows(s, None) && n.minters.contains(
            minter,
        ),
        s.remove_minter(minter, caller) matches Ok(n) ==> n.follows(s, None) && !n.minters.contains(
            minter,
        ),
{
    if caller == s.owner_id {
        let a = s.add_minter(minter, caller)->Ok_0;
        if !s.minters.contains(minter) {
            lemma_push_keeps_distinct(s.minters, minter);
            assert(a.minters[s.minters.len() as int] == minter);
        }
        assert(a.tokens_tile_editions());
        assert(a.listings_match_states());
        assert(a.grants_are_distinct());
        assert(a.collections_are_sound());
        if s.minters.contains(minter) {
            lemma_without_removes(s.minters, minter);
            let r = s.remove_minter(minter, caller)->Ok_0;
            assert(r.tokens_tile_editions());
            assert(r.listings_match_states());
            assert(r.grants_are_distinct());
            assert(r.collections_are_sound());
        }
    }
}

/// Creating the genesis collection leaves a consistent ledger with every
/// edition and bid as it was.
pub proof fn lemma_genesis_follows(
    s: MarketState,
    thumbnail: Seq<char>,
    caller: AccountName,
    timestamp: u64,
)
    requires
        s.inv(),
    ensures
        s.generate_genesis_collection(thumbnail, caller, timestamp) matches Ok(n) ==> n.follows(
            s,
            None,
        ),
{
    if s.generate_genesis_collection(thumbnail, caller, timestamp) is Ok {
        let g = s.generate_genesis_collection(thumbnail, caller, timestamp)->Ok_0;
        let first = genesis_collection(thumbnail, timestamp);
        assert(first.minters.no_duplicates());
        assert(g.tokens_tile_editions());
        assert(g.listings_match_states());
        assert(g.grants_are_distinct());
        assert(g.collections_are_sound());
    }
}

/// What the owner may do leaves a consistent ledger in which every edition
/// and bid is where it was, with the owner it had. A minter that was taken
/// off the whitelist is no longer on it.
pub proof fn lemma_owner_actions_follow(
    s: MarketState,
    caller: AccountName,
    minter: AccountName,
    paused: bool,
    fee: Balance,
    value: u8,
    thumbnail: Seq<char>,
    timestamp: u64,
)
    requires
        s.inv(),
    ensures
        s.add_minter(minter, caller) matches Ok(n) ==> n.follows(s, None),
        s.remove_minter(minter, caller) matches Ok(n) ==> n.follows(s, None) && !n.minters.contains(
            minter,
        ),
        s.set_paused(paused, caller) matches Ok(n) ==> n.follows(s, None),
        s.set_mint_fee(fee, caller) matches Ok(n) ==> n.follows(s, None),
        s.set_edition_fee(fee, caller) matches Ok(n) ==> n.follows(s, None),
        s.set_collection_fee(fee, caller) matches Ok(n) ==> n.follows(s, None),
        s.set_max_edition(value, caller) matches Ok(n) ==> n.follows(s, None),
        s.set_trade_fee(fee, caller) matches Ok(n) ==> n.follows(s, None),
        s.generate_genesis_collection(thumbnail, caller, timestamp) matches Ok(n) ==> n.follows(
            s,
            None,
        ),
{
    lemma_whitelist_follows(s, minter, caller);
    lemma_genesis_follows(s, thumbnail, caller, timestamp);
    if caller == s.owner_id {
        lemma_same_holdings_follow(s, s.set_paused(paused, caller)->Ok_0);
        lemma_same_holdings_follow(s, s.set_mint_fee(fee, caller)->Ok_0);
        lemma_same_holdings_follow(s, s.set_edition_fee(fee, caller)->Ok_0);
        lemma_same_holdings_follow(s, s.set_collection_fee(fee, caller)->Ok_0);
        lemma_same_holdings_follow(s, s.set_max_edition(value, caller)->Ok_0);
        lemma_same_holdings_follow(s, s.set_trade_fee(fee, caller)->Ok_0);
    }
}

} // verus!
