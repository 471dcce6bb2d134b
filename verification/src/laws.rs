//! The ledger as a state machine: every request that can change it, the
//! step that a request makes, and what holds of every step.

use vstd::prelude::*;
use crate::admin::lemma_owner_actions_follow;
use crate::catalog::{
    lemma_burn_follows, lemma_collection_minters_follow, lemma_create_collection_follows,
    lemma_mint_follows,
};
use crate::error::MarketError;
use crate::marketplace::{
    lemma_buy_follows, lemma_cancel_sale_follows, lemma_list_each_follows,
    lemma_list_price_follows,
};
use crate::model::{CollectionView, EditionState, MetadataView, TransferMode};
use crate::offers::{lemma_place_offer_follows, lemma_settled_offer_follows};
use crate::permissions::{lemma_allowance_follows, lemma_escrow_follows};
use crate::state::{frozen, handed, lemma_located_edition, Handover, MarketState};
use crate::transfer::lemma_transfer_edition_follows;
use crate::types::{AccountName, Balance, CollectionId, EditionNumber, TokenId, TokenPrice};

verus! {

/// A request that can change the ledger.
pub enum Action {
    Mint { metadata: MetadataView, payer: AccountName, attached_deposit: Balance, timestamp: u64 },
    CreateCollection {
        collection: CollectionView,
        payer: AccountName,
        attached_deposit: Balance,
        timestamp: u64,
    },
    AddCollectionMinter { collection_id: CollectionId, person: AccountName, caller: AccountName },
    RemoveCollectionMinter { collection_id: CollectionId, person: AccountName, caller: AccountName },
    BurnEdition { token_id: TokenId, edition_number: EditionNumber, caller: AccountName },
    GrantAccess { caller: AccountName, delegate: AccountName },
    RevokeAccess { caller: AccountName, delegate: AccountName },
    GrantAllowance {
        token_id: TokenId,
        edition_number: EditionNumber,
        account: AccountName,
        caller: AccountName,
    },
    RemoveAllowance {
        token_id: TokenId,
        edition_number: EditionNumber,
        account: AccountName,
        caller: AccountName,
    },
    Transfer {
        to: AccountName,
        token_id: TokenId,
        edition_number: EditionNumber,
        caller: AccountName,
    },
    TransferFrom {
        from: AccountName,
        to: AccountName,
        token_id: TokenId,
        edition_number: EditionNumber,
        caller: AccountName,
    },
    ListPrice {
        token_id: TokenId,
        edition_number: EditionNumber,
        price: TokenPrice,
        caller: AccountName,
    },
    ListBatch {
        token_id: TokenId,
        edition_numbers: Seq<EditionNumber>,
        price: TokenPrice,
        caller: AccountName,
    },
    CancelSale { token_id: TokenId, edition_number: EditionNumber, caller: AccountName },
    Buy { token_id: TokenId, edition_number: EditionNumber, buyer: AccountName, payment: Balance },
    Offer {
        token_id: TokenId,
        edition_number: EditionNumber,
        bidder: AccountName,
        amount: Balance,
        timestamp: u64,
    },
    AcceptOffer {
        token_id: TokenId,
        edition_number: EditionNumber,
        index: u64,
        caller: AccountName,
    },
    CancelOffer {
        token_id: TokenId,
        edition_number: EditionNumber,
        index: u64,
        caller: AccountName,
    },
    AddMinter { minter: AccountName, caller: AccountName },
    RemoveMinter { minter: AccountName, caller: AccountName },
    SetPaused { paused: bool, caller: AccountName },
    SetMintFee { fee: Balance, caller: AccountName },
    SetEditionFee { fee: Balance, caller: AccountName },
    SetCollectionFee { fee: Balance, caller: AccountName },
    SetMaxEdition { value: u8, caller: AccountName },
    SetTradeFee { fee: Balance, caller: AccountName },
    GenerateGenesisCollection { thumbnail: Seq<char>, caller: AccountName, timestamp: u64 },
}

impl MarketState {
    /// The ledger after a request, or the error with which the request is
    /// rejected.
    pub open spec fn step(self, action: Action) -> Result<MarketState, MarketError> {
        match action {
            Action::Mint { metadata, payer, attached_deposit, timestamp } => self.mint(
                metadata,
                payer,
                attached_deposit,
                timestamp,
            ),
            Action::CreateCollection {
                collection,
                payer,
                attached_deposit,
                timestamp,
            } => self.create_collection(collection, payer, attached_deposit, timestamp),
            Action::AddCollectionMinter {
                collection_id,
                person,
                caller,
            } => self.add_collection_minter(collection_id, person, caller),
            Action::RemoveCollectionMinter {
                collection_id,
                person,
                caller,
            } => self.remove_collection_minter(collection_id, person, caller),
            Action::BurnEdition { token_id, edition_number, caller } => self.burn_edition(
                token_id,
                edition_number,
                caller,
            ),
            Action::GrantAccess { caller, delegate } => self.grant_access(caller, delegate),
            Action::RevokeAccess { caller, delegate } => Ok(self.revoke_access(caller, delegate)),
            Action::GrantAllowance {
                token_id,
                edition_number,
                account,
                caller,
            } => self.grant_edition_allowance(token_id, edition_number, account, caller),
            Action::RemoveAllowance {
                token_id,
                edition_number,
                account,
                caller,
            } => self.remove_edition_allowance(token_id, edition_number, account, caller),
            Action::Transfer { to, token_id, edition_number, caller } => self.transfer(
                to,
                token_id,
                edition_number,
                caller,
            ),
            Action::TransferFrom {
                from,
                to,
                token_id,
                edition_number,
                caller,
            } => self.transfer_from(from, to, token_id, edition_number, caller),
            Action::ListPrice { token_id, edition_number, price, caller } => self.list_price(
                token_id,
                edition_number,
                price,
                caller,
            ),
            Action::ListBatch { token_id, edition_numbers, price, caller } => self.list_batch(
                token_id,
                edition_numbers,
                price,
                caller,
            ),
            Action::CancelSale { token_id, edition_number, caller } => self.cancel_sale(
                token_id,
                edition_number,
                caller,
            ),
            Action::Buy { token_id, edition_number, buyer, payment } => self.buy(
                token_id,
                edition_number,
                buyer,
                payment,
            ),
            Action::Offer {
                token_id,
                edition_number,
                bidder,
                amount,
                timestamp,
            } => self.place_offer(token_id, edition_number, bidder, amount, timestamp),
            Action::AcceptOffer { token_id, edition_number, index, caller } => self.accept_offer(
                token_id,
                edition_number,
                index,
                caller,
            ),
            Action::CancelOffer { token_id, edition_number, index, caller } => self.cancel_offer(
                token_id,
                edition_number,
                index,
                caller,
            ),
            Action::AddMinter { minter, caller } => self.add_minter(minter, caller),
            Action::RemoveMinter { minter, caller } => self.remove_minter(minter, caller),
            Action::SetPaused { paused, caller } => self.set_paused(paused, caller),
            Action::SetMintFee { fee, caller } => self.set_mint_fee(fee, caller),
            Action::SetEditionFee { fee, caller } => self.set_edition_fee(fee, caller),
            Action::SetCollectionFee { fee, caller } => self.set_collection_fee(fee, caller),
            Action::SetMaxEdition { value, caller } => self.set_max_edition(value, caller),
            Action::SetTradeFee { fee, caller } => self.set_trade_fee(fee, caller),
            Action::GenerateGenesisCollection {
                thumbnail,
                caller,
                timestamp,
            } => self.generate_genesis_collection(thumbnail, caller, timestamp),
        }
    }

    /// The change of hands that a request asks for, if it asks for one:
    /// the edition goes to the recipient of a transfer, to the buyer, or to
    /// the bidder whose offer is accepted.
    pub open spec fn handover(self, action: Action) -> Option<Handover> {
        match action {
            Action::Transfer { to, token_id, edition_number, caller } => handed(
                self.locate(token_id, edition_number)->0,
                to,
            ),
            Action::TransferFrom { from, to, token_id, edition_number, caller } => handed(
                self.locate(token_id, edition_number)->0,
                to,
            ),
            Action::Buy { token_id, edition_number, buyer, payment } => handed(
                self.locate(token_id, edition_number)->0,
                buyer,
            ),
            Action::AcceptOffer { token_id, edition_number, index, caller } => handed(
                self.locate(token_id, edition_number)->0,
                self.bids[self.locate(token_id, edition_number)->0][index as int].bidder,
            ),
            _ => None,
        }
    }
}

/// Every granted request leaves the ledger consistent, keeps every edition
/// and every bid in its place, and changes the owner of no edition but the
/// one that the request hands over. With the consistency of a new ledger
/// this makes consistency hold at every point in time: the blocks of global
/// indices of the tokens never overlap, and an edition is listed exactly
/// when the marketplace holds a price for it.
pub proof fn lemma_step_follows(s: MarketState, action: Action)
    requires
        s.inv(),
    ensures
        s.step(action) matches Ok(n) ==> n.follows(s, s.handover(action)),
{
    match action {
        Action::Mint { metadata, payer, attached_deposit, timestamp } => {
            lemma_mint_follows(s, metadata, payer, attached_deposit, timestamp);
        },
        Action::CreateCollection { collection, payer, attached_deposit, timestamp } => {
            lemma_create_collection_follows(s, collection, payer, attached_deposit, timestamp);
        },
        Action::AddCollectionMinter { collection_id, person, caller } => {
            lemma_collection_minters_follow(s, collection_id, person, caller);
        },
        Action::RemoveCollectionMinter { collection_id, person, caller } => {
            lemma_collection_minters_follow(s, collection_id, person, caller);
        },
        Action::BurnEdition { token_id, edition_number, caller } => {
            lemma_burn_follows(s, token_id, edition_number, caller);
        },
        Action::GrantAccess { caller, delegate } => {
            lemma_escrow_follows(s, caller, delegate);
        },
        Action::RevokeAccess { caller, delegate } => {
            lemma_escrow_follows(s, caller, delegate);
        },
        Action::GrantAllowance { token_id, edition_number, account, caller } => {
            lemma_allowance_follows(s, token_id, edition_number, account, caller);
        },
        Action::RemoveAllowance { token_id, edition_number, account, caller } => {
            lemma_allowance_follows(s, token_id, edition_number, account, caller);
        },
        Action::Transfer { to, token_id, edition_number, caller } => {
            if s.has_edition(token_id, edition_number) {
                lemma_located_edition(s, token_id, edition_number);
                lemma_transfer_edition_follows(
                    s,
                    s.global_index(token_id, edition_number) as u64,
                    caller,
                    to,
                    edition_number,
                    TransferMode::Direct,
                    caller,
                );
            }
        },
        Action::TransferFrom { from, to, token_id, edition_number, caller } => {
            if s.has_edition(token_id, edition_number) {
                lemma_located_edition(s, token_id, edition_number);
                lemma_transfer_edition_follows(
                    s,
                    s.global_index(token_id, edition_number) as u64,
                    from,
                    to,
                    edition_number,
                    TransferMode::Delegated,
                    caller,
                );
            }
        },
        Action::ListPrice { token_id, edition_number, price, caller } => {
            lemma_list_price_follows(s, token_id, edition_number, price, caller);
        },
        Action::ListBatch { token_id, edition_numbers, price, caller } => {
            lemma_list_each_follows(s, token_id, edition_numbers, price, caller);
        },
        Action::CancelSale { token_id, edition_number, caller } => {
            lemma_cancel_sale_follows(s, token_id, edition_number, caller);
        },
        Action::Buy { token_id, edition_number, buyer, payment } => {
            lemma_buy_follows(s, token_id, edition_number, buyer, payment);
        },
        Action::Offer { token_id, edition_number, bidder, amount, timestamp } => {
            lemma_place_offer_follows(s, token_id, edition_number, bidder, amount, timestamp);
        },
        Action::AcceptOffer { token_id, edition_number, index, caller } => {
            lemma_settled_offer_follows(s, token_id, edition_number, index, caller);
        },
        Action::CancelOffer { token_id, edition_number, index, caller } => {
            lemma_settled_offer_follows(s, token_id, edition_number, index, caller);
        },
        Action::AddMinter { minter, caller } => {
            lemma_owner_actions_follow(s, caller, minter, false, 0, 0, Seq::empty(), 0);
        },
        Action::RemoveMinter { minter, caller } => {
            lemma_owner_actions_follow(s, caller, minter, false, 0, 0, Seq::empty(), 0);
        },
        Action::SetPaused { paused, caller } => {
            lemma_owner_actions_follow(s, caller, Seq::empty(), paused, 0, 0, Seq::empty(), 0);
        },
        Action::SetMintFee { fee, caller } => {
            lemma_owner_actions_follow(s, caller, Seq::empty(), false, fee, 0, Seq::empty(), 0);
        },
        Action::SetEditionFee { fee, caller } => {
            lemma_owner_actions_follow(s, caller, Seq::empty(), false, fee, 0, Seq::empty(), 0);
        },
        Action::SetCollectionFee { fee, caller } => {
            lemma_owner_actions_follow(s, caller, Seq::empty(), false, fee, 0, Seq::empty(), 0);
        },
        Action::SetMaxEdition { value, caller } => {
            lemma_owner_actions_follow(s, caller, Seq::empty(), false, 0, value, Seq::empty(), 0);
        },
        Action::SetTradeFee { fee, caller } => {
            lemma_owner_actions_follow(s, caller, Seq::empty(), false, fee, 0, Seq::empty(), 0);
        },
        Action::GenerateGenesisCollection { thumbnail, caller, timestamp } => {
            lemma_owner_actions_follow(
                s,
                caller,
                Seq::empty(),
                false,
                0,
                0,
                thumbnail,
                timestamp,
            );
        },
    }
}

/// Every edition has exactly one owner at every point in time. An edition
/// that exists goes on existing through every granted request, under the
/// same global index, token and number, burned or not. Its owner after the
/// request is the account to which the request hands it, and the owner it
/// had before where the request hands it to no one.
pub proof fn lemma_every_edition_keeps_one_owner(s: MarketState, action: Action, index: int)
    requires
        s.inv(),
        1 <= index <= s.total_editions(),
        s.step(action) is Ok,
    ensures
        ({
            let n = s.step(action)->Ok_0;
            &&& index <= n.total_editions()
            &&& n.editions[index - 1].token_id == s.editions[index - 1].token_id
            &&& n.editions[index - 1].edition_number == s.editions[index - 1].edition_number
            &&& n.editions[index - 1].edition_owner == match s.handover(action) {
                Some(handover) if handover.slot == index - 1 => handover.to,
                _ => s.editions[index - 1].edition_owner,
            }
        }),
{
    lemma_step_follows(s, action);
    let n = s.step(action)->Ok_0;
    assert(n.continues(s));
    assert(n.owners_follow(s, s.handover(action)));
    let e = n.editions[index - 1];
}

/// Burning is final: no granted request moves a burned edition to another
/// state.
pub proof fn lemma_burn_is_final(s: MarketState, action: Action, index: int)
    requires
        s.inv(),
        1 <= index <= s.total_editions(),
        s.states[index - 1] == EditionState::BURNED,
        s.step(action) is Ok,
    ensures
        s.step(action)->Ok_0.states[index - 1] == EditionState::BURNED,
{
    lemma_step_follows(s, action);
    let n = s.step(action)->Ok_0;
    assert(n.continues(s));
}

/// A bid that has been accepted or cancelled stays so: no granted request
/// opens it again, and no request removes a bid from its place.
pub proof fn lemma_executed_bid_stays_executed(
    s: MarketState,
    action: Action,
    index: int,
    bid: int,
)
    requires
        s.inv(),
        1 <= index <= s.total_editions(),
        0 <= bid < s.bids[index - 1].len(),
        s.step(action) is Ok,
    ensures
        ({
            let n = s.step(action)->Ok_0;
            &&& bid < n.bids[index - 1].len()
            &&& s.bids[index - 1][bid].executed ==> n.bids[index - 1][bid].executed
        }),
{
    lemma_step_follows(s, action);
    let n = s.step(action)->Ok_0;
    assert(n.continues(s));
    let list = n.bids[index - 1];
    let b = n.bids[index - 1][bid];
}

/// An edition that is locked or burned can be neither transferred nor
/// bought, listed, bid on or burned, and no offer on it can be accepted,
/// whoever asks.
pub proof fn lemma_frozen_edition_is_out_of_reach(
    s: MarketState,
    token_id: TokenId,
    edition_number: EditionNumber,
    caller: AccountName,
    other: AccountName,
    amount: Balance,
    index: u64,
    timestamp: u64,
)
    requires
        s.inv(),
        s.has_edition(token_id, edition_number),
        frozen(s.states[s.locate(token_id, edition_number)->0]),
    ensures
        s.transfer(other, token_id, edition_number, caller) is Err,
        s.transfer_from(other, caller, token_id, edition_number, caller) is Err,
        s.buy(token_id, edition_number, caller, amount) is Err,
        s.list_price(token_id, edition_number, amount, caller) is Err,
        s.place_offer(token_id, edition_number, caller, amount, timestamp) is Err,
        s.accept_offer(token_id, edition_number, index, caller) is Err,
        s.burn_edition(token_id, edition_number, caller) is Err,
{
    lemma_located_edition(s, token_id, edition_number);
}

/// A burned edition stays without allowances and without a listing:
/// nobody can give it an allowance, take one from it or take it off the
/// market. A locked edition is open to all three in the hands of its owner,
/// and taking it off the market leaves it locked.
pub proof fn lemma_owner_tends_to_locked_not_to_burned(
    s: MarketState,
    token_id: TokenId,
    edition_number: EditionNumber,
    caller: AccountName,
    account: AccountName,
)
    requires
        s.inv(),
        s.has_edition(token_id, edition_number),
    ensures
        ({
            let slot = s.locate(token_id, edition_number)->0;
            let owned = s.editions[slot].edition_owner == caller;
            &&& s.states[slot] == EditionState::BURNED ==> {
                &&& s.grant_edition_allowance(token_id, edition_number, account, caller) is Err
                &&& s.remove_edition_allowance(token_id, edition_number, account, caller) is Err
                &&& s.cancel_sale(token_id, edition_number, caller) is Err
            }
            &&& s.states[slot] == EditionState::LOCKED && owned ==> {
                &&& s.cancel_sale(token_id, edition_number, caller) == Ok::<
                    MarketState,
                    MarketError,
                >(s)
                &&& !s.allowances[slot].contains(account) ==> s.grant_edition_allowance(
                    token_id,
                    edition_number,
                    account,
                    caller,
                ) is Ok
                &&& s.allowances[slot].contains(account) ==> s.remove_edition_allowance(
                    token_id,
                    edition_number,
                    account,
                    caller,
                ) is Ok
            }
        }),
{
    lemma_located_edition(s, token_id, edition_number);
}

/// Every change of owner leaves the edition available, without a listing
/// and without allowances, and leaves every escrow grant as it was.
pub proof fn lemma_change_of_owner_clears_the_edition(s: MarketState, action: Action)
    requires
        s.inv(),
        s.step(action) is Ok,
        s.handover(action) is Some,
    ensures
        ({
            let n = s.step(action)->Ok_0;
            let slot = s.handover(action)->0.slot;
            &&& 0 <= slot < s.total_editions()
            &&& n.states[slot] == EditionState::AVAILABLE
            &&& !n.listings.contains_key((slot + 1) as u64)
            &&& n.allowances[slot] == Seq::<AccountName>::empty()
            &&& n.escrows == s.escrows
        }),
{
    match action {
        Action::Transfer { to, token_id, edition_number, caller } => {
            lemma_located_edition(s, token_id, edition_number);
        },
        Action::TransferFrom { from, to, token_id, edition_number, caller } => {
            lemma_located_edition(s, token_id, edition_number);
        },
        Action::Buy { token_id, edition_number, buyer, payment } => {
            lemma_located_edition(s, token_id, edition_number);
        },
        Action::AcceptOffer { token_id, edition_number, index, caller } => {
            lemma_located_edition(s, token_id, edition_number);
        },
        _ => {},
    }
}

} // verus!
