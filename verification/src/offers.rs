//! The offer book: bids on an edition, their acceptance by the owner and
//! their cancellation by the bidder.

use vstd::prelude::*;
use crate::error::MarketError;
use crate::model::{BidView, PaymentView, TransferMode};
use crate::state::{frozen, handed, lemma_located_edition, MarketState};
use crate::transfer::lemma_move_edition_follows;
use crate::text::decimal_digits;
use crate::types::{AccountName, Balance, EditionNumber, TokenId};

verus! {

impl MarketState {
    /// Why a bid is rejected, if so. The checks are made in this order: the
    /// ledger is paused; the edition does not exist; the amount does not
    /// exceed the mint storage fee; the bidder owns the edition; the
    /// edition is locked or burned.
    pub open spec fn offer_obstacle(
        self,
        token_id: TokenId,
        edition_number: EditionNumber,
        bidder: AccountName,
        amount: Balance,
    ) -> Option<MarketError> {
        if self.paused {
            Some(MarketError::Paused)
        } else {
            match self.locate(token_id, edition_number) {
                None => Some(MarketError::NotFound),
                Some(slot) => if amount <= self.mint_storage_fee {
                    Some(MarketError::InsufficientDeposit)
                } else if self.editions[slot].edition_owner == bidder {
                    Some(MarketError::SelfDealing)
                } else if frozen(self.states[slot]) {
                    Some(MarketError::InvalidState)
                } else {
                    None
                },
            }
        }
    }

    /// `bidder` bids `amount` on an edition. The bid goes to the end of the
    /// edition's list; its index is the length of the list before.
    pub open spec fn place_offer(
        self,
        token_id: TokenId,
        edition_number: EditionNumber,
        bidder: AccountName,
        amount: Balance,
        timestamp: u64,
    ) -> Result<MarketState, MarketError> {
        match self.offer_obstacle(token_id, edition_number, bidder, amount) {
            Some(e) => Err(e),
            None => {
                let slot = self.locate(token_id, edition_number)->0;
                let bid = BidView {
                    bidder,
                    amount,
                    date: decimal_digits(timestamp as nat),
                    executed: false,
                };
                Ok(MarketState { bids: self.bids.update(slot, self.bids[slot].push(bid)), ..self })
            },
        }
    }

    /// The bid at `index` on an edition, or why there is none to act on:
    /// the edition or the bid does not exist, or the bid has been accepted
    /// or cancelled before.
    pub open spec fn open_bid(
        self,
        token_id: TokenId,
        edition_number: EditionNumber,
        index: u64,
    ) -> Result<BidView, MarketError> {
        match self.locate(token_id, edition_number) {
            None => Err(MarketError::NotFound),
            Some(slot) => if index >= self.bids[slot].len() {
                Err(MarketError::NotFound)
            } else if self.bids[slot][index as int].executed {
                Err(MarketError::InvalidState)
            } else {
                Ok(self.bids[slot][index as int])
            },
        }
    }

    /// The ledger with the bid at `index` on the edition at `slot` settled
    /// and blanked.
    pub open spec fn with_closed_bid(self, slot: int, index: int) -> MarketState {
        MarketState {
            bids: self.bids.update(
                slot,
                self.bids[slot].update(index, self.bids[slot][index].closed_out()),
            ),
            ..self
        }
    }

    /// Why an offer cannot be accepted, if so. The checks are made in this
    /// order: there is no open bid; the caller does not own the edition;
    /// the transfer engine refuses the sale; the platform's fee divisor is
    /// zero.
    pub open spec fn accept_obstacle(
        self,
        token_id: TokenId,
        edition_number: EditionNumber,
        index: u64,
        caller: AccountName,
    ) -> Option<MarketError> {
        match self.open_bid(token_id, edition_number, index) {
            Err(e) => Some(e),
            Ok(bid) => {
                let slot = self.locate(token_id, edition_number)->0;
                if self.editions[slot].edition_owner != caller {
                    Some(MarketError::Unauthorized)
                } else if self.transfer_obstacle(
                    (slot + 1) as u64,
                    caller,
                    edition_number,
                    TransferMode::Sale,
                    caller,
                ) is Some {
                    self.transfer_obstacle(
                        (slot + 1) as u64,
                        caller,
                        edition_number,
                        TransferMode::Sale,
                        caller,
                    )
                } else if self.trade_fee == 0 {
                    Some(MarketError::ValidationFailed)
                } else {
                    None
                }
            },
        }
    }

    /// The owner accepts a bid: the edition passes to the bidder and the
    /// bid is settled.
    pub open spec fn accept_offer(
        self,
        token_id: TokenId,
        edition_number: EditionNumber,
        index: u64,
        caller: AccountName,
    ) -> Result<MarketState, MarketError> {
        match self.accept_obstacle(token_id, edition_number, index, caller) {
            Some(e) => Err(e),
            None => {
                let slot = self.locate(token_id, edition_number)->0;
                let bid = self.bids[slot][index as int];
                Ok(self.move_edition(slot, bid.bidder).with_closed_bid(slot, index as int))
            },
        }
    }

    /// The payments that follow the acceptance of a bid: the bid's amount
    /// is split, with the accepting owner as seller.
    pub open spec fn accept_payments(
        self,
        token_id: TokenId,
        edition_number: EditionNumber,
        index: u64,
        caller: AccountName,
    ) -> Seq<PaymentView> {
        self.sale_payments(
            token_id,
            caller,
            self.bids[self.locate(token_id, edition_number)->0][index as int].amount,
        )
    }

    /// Why a bid cannot be cancelled, if so: there is no open bid, or the
    /// caller did not make it.
    pub open spec fn cancel_obstacle(
        self,
        token_id: TokenId,
        edition_number: EditionNumber,
        index: u64,
        caller: AccountName,
    ) -> Option<MarketError> {
        match self.open_bid(token_id, edition_number, index) {
            Err(e) => Some(e),
            Ok(bid) => if bid.bidder != caller {
                Some(MarketError::Unauthorized)
            } else {
                None
            },
        }
    }

    /// The bidder cancels a bid: the bid is settled.
    pub open spec fn cancel_offer(
        self,
        token_id: TokenId,
        edition_number: EditionNumber,
        index: u64,
        caller: AccountName,
    ) -> Result<MarketState, MarketError> {
        match self.cancel_obstacle(token_id, edition_number, index, caller) {
            Some(e) => Err(e),
            None => Ok(
                self.with_closed_bid(self.locate(token_id, edition_number)->0, index as int),
            ),
        }
    }

    /// What a cancelled bid pays back: its amount less the edition storage
    /// fee, which is kept, or nothing where the amount does not exceed
    /// that fee.
    pub open spec fn refund_due(self, amount: Balance) -> Balance {
        if amount > self.edition_storage_fee {
            (amount - self.edition_storage_fee) as Balance
        } else {
            0
        }
    }

    /// What cancelling the bid at `index` pays back to the bidder.
    pub open spec fn cancel_refund(
        self,
        token_id: TokenId,
        edition_number: EditionNumber,
        index: u64,
    ) -> Balance {
        self.refund_due(self.bids[self.locate(token_id, edition_number)->0][index as int].amount)
    }
}

/// Placing a bid leaves a consistent ledger with every edition and every
/// earlier bid as it was.
pub proof fn lemma_place_offer_follows(
    s: MarketState,
    token_id: TokenId,
    edition_number: EditionNumber,
    bidder: AccountName,
    amount: Balance,
    timestamp: u64,
)
    requires
        s.inv(),
    ensures
        s.place_offer(token_id, edition_number, bidder, amount, timestamp) matches Ok(n)
            ==> n.follows(s, None),
{
    if s.offer_obstacle(token_id, edition_number, bidder, amount) is None {
        lemma_located_edition(s, token_id, edition_number);
        let n = s.place_offer(token_id, edition_number, bidder, amount, timestamp)->Ok_0;
        assert(n.listings_match_states());
        assert(n.tokens_tile_editions());
        assert(n.grants_are_distinct());
    }
}

/// Settling a bid leaves a consistent ledger with every edition as it was
/// and every bid in its place.
pub proof fn lemma_closed_bid_follows(s: MarketState, slot: int, index: int)
    requires
        s.inv(),
        0 <= slot < s.bids.len(),
        0 <= index < s.bids[slot].len(),
    ensures
        s.with_closed_bid(slot, index).follows(s, None),
{
    let n = s.with_closed_bid(slot, index);
    assert(n.listings_match_states());
    assert(n.tokens_tile_editions());
    assert(n.grants_are_distinct());
}

/// Accepting and cancelling a bid leave a consistent ledger with every bid
/// in its place. An acceptance hands the edition to the bidder and changes
/// no other owner; a cancellation changes none. Of the transfer engine's
/// checks only the pause switch and the state of the edition can stand in
/// the way of an acceptance.
pub proof fn lemma_settled_offer_follows(
    s: MarketState,
    token_id: TokenId,
    edition_number: EditionNumber,
    index: u64,
    caller: AccountName,
)
    requires
        s.inv(),
    ensures
        s.accept_offer(token_id, edition_number, index, caller) matches Ok(n) ==> n.follows(
            s,
            handed(
                s.locate(token_id, edition_number)->0,
                s.bids[s.locate(token_id, edition_number)->0][index as int].bidder,
            ),
        ),
        s.cancel_offer(token_id, edition_number, index, caller) matches Ok(n) ==> n.follows(s, None),
        s.has_edition(token_id, edition_number) && s.editions[s.locate(
            token_id,
            edition_number,
        )->0].edition_owner == caller ==> {
            let slot = s.locate(token_id, edition_number)->0;
            s.transfer_obstacle(
                (slot + 1) as u64,
                caller,
                edition_number,
                TransferMode::Sale,
                caller,
            ) == if s.paused {
                Some(MarketError::Paused)
            } else if frozen(s.states[slot]) {
                Some(MarketError::InvalidState)
            } else {
                None
            }
        },
{
    if s.has_edition(token_id, edition_number) {
        lemma_located_edition(s, token_id, edition_number);
        let slot = s.locate(token_id, edition_number)->0;
        if s.accept_obstacle(token_id, edition_number, index, caller) is None {
            let bid = s.bids[slot][index as int];
            lemma_move_edition_follows(s, slot, bid.bidder);
            lemma_closed_bid_follows(s.move_edition(slot, bid.bidder), slot, index as int);
        }
        if s.cancel_obstacle(token_id, edition_number, index, caller) is None {
            lemma_closed_bid_follows(s, slot, index as int);
        }
    }
}

/// A bid that has been accepted or cancelled can be neither accepted nor
/// cancelled again: whoever tries is told that the bid is in the wrong
/// state.
pub proof fn lemma_executed_bid_is_terminal(
    s: MarketState,
    token_id: TokenId,
    edition_number: EditionNumber,
    index: u64,
    caller: AccountName,
)
    requires
        s.has_edition(token_id, edition_number),
        index < s.bids[s.locate(token_id, edition_number)->0].len(),
        s.bids[s.locate(token_id, edition_number)->0][index as int].executed,
    ensures
        s.accept_offer(token_id, edition_number, index, caller) == Err::<MarketState, MarketError>(
            MarketError::InvalidState,
        ),
        s.cancel_offer(token_id, edition_number, index, caller) == Err::<MarketState, MarketError>(
            MarketError::InvalidState,
        ),
{
}

} // verus!
