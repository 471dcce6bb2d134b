//! The marketplace ledger: fixed-price listings and purchases.

use vstd::prelude::*;
use crate::error::MarketError;
use crate::model::{EditionState, PaymentView, TransferMode};
use crate::settlement::{payments_due, settlement_split};
use crate::state::{frozen, handed, lemma_located_edition, MarketState};
use crate::transfer::lemma_move_edition_follows;
use crate::types::{AccountName, Balance, EditionNumber, TokenId, TokenPrice};

verus! {

impl MarketState {
    /// The owner offers an edition for sale at `price`, or changes the
    /// price of one that is already listed.
    pub open spec fn list_price(
        self,
        token_id: TokenId,
        edition_number: EditionNumber,
        price: TokenPrice,
        caller: AccountName,
    ) -> Result<MarketState, MarketError> {
        match self.owner_obstacle(token_id, edition_number, caller) {
            Some(e) => Err(e),
            None => {
                let slot = self.locate(token_id, edition_number)->0;
                Ok(
                    MarketState {
                        states: self.states.update(slot, EditionState::LISTED),
                        listings: self.listings.insert((slot + 1) as u64, price),
                        ..self
                    },
                )
            },
        }
    }

    /// Lists the editions of `edition_numbers` one after the other at the
    /// same price. The first edition that cannot be listed rejects them all.
    pub open spec fn list_each(
        self,
        token_id: TokenId,
        edition_numbers: Seq<EditionNumber>,
        price: TokenPrice,
        caller: AccountName,
    ) -> Result<MarketState, MarketError>
        decreases edition_numbers.len(),
    {
        if edition_numbers.len() == 0 {
            Ok(self)
        } else {
            match self.list_each(token_id, edition_numbers.drop_last(), price, caller) {
                Err(e) => Err(e),
                Ok(listed) => listed.list_price(token_id, edition_numbers.last(), price, caller),
            }
        }
    }

    /// Lists several editions of a token at one price. A batch without
    /// editions is rejected.
    pub open spec fn list_batch(
        self,
        token_id: TokenId,
        edition_numbers: Seq<EditionNumber>,
        price: TokenPrice,
        caller: AccountName,
    ) -> Result<MarketState, MarketError> {
        if edition_numbers.len() == 0 {
            Err(MarketError::ValidationFailed)
        } else {
            self.list_each(token_id, edition_numbers, price, caller)
        }
    }

    /// The owner takes an edition off the market: a listed edition loses
    /// its listing and becomes available. The ledger stays as it is where
    /// the edition was not listed, whether it is available or locked.
    pub open spec fn cancel_sale(
        self,
        token_id: TokenId,
        edition_number: EditionNumber,
        caller: AccountName,
    ) -> Result<MarketState, MarketError> {
        match self.holder_obstacle(token_id, edition_number, caller) {
            Some(e) => Err(e),
            None => {
                let slot = self.locate(token_id, edition_number)->0;
                if self.states[slot] == EditionState::LISTED {
                    Ok(
                        MarketState {
                            states: self.states.update(slot, EditionState::AVAILABLE),
                            listings: self.listings.remove((slot + 1) as u64),
                            ..self
                        },
                    )
                } else {
                    Ok(self)
                }
            },
        }
    }

    /// The price at which an edition is listed.
    pub open spec fn price_of(self, token_id: TokenId, edition_number: EditionNumber) -> Result<
        TokenPrice,
        MarketError,
    > {
        match self.locate(token_id, edition_number) {
            None => Err(MarketError::NotFound),
            Some(slot) => if self.listings.contains_key((slot + 1) as u64) {
                Ok(self.listings[(slot + 1) as u64])
            } else {
                Err(MarketError::NotFound)
            },
        }
    }

    /// Why a purchase is rejected, if so. The checks are made in this
    /// order: the edition does not exist or is not listed; the payment is
    /// below the price; the buyer owns the edition; the transfer engine
    /// refuses the sale; the platform's fee divisor is zero.
    pub open spec fn buy_obstacle(
        self,
        token_id: TokenId,
        edition_number: EditionNumber,
        buyer: AccountName,
        payment: Balance,
    ) -> Option<MarketError> {
        match self.price_of(token_id, edition_number) {
            Err(e) => Some(e),
            Ok(price) => {
                let slot = self.locate(token_id, edition_number)->0;
                let seller = self.editions[slot].edition_owner;
                if payment < price {
                    Some(MarketError::InsufficientDeposit)
                } else if buyer == seller {
                    Some(MarketError::SelfDealing)
                } else if self.transfer_obstacle(
                    (slot + 1) as u64,
                    seller,
                    edition_number,
                    TransferMode::Sale,
                    buyer,
                ) is Some {
                    self.transfer_obstacle(
                        (slot + 1) as u64,
                        seller,
                        edition_number,
                        TransferMode::Sale,
                        buyer,
                    )
                } else if self.trade_fee == 0 {
                    Some(MarketError::ValidationFailed)
                } else {
                    None
                }
            },
        }
    }

    /// `buyer` buys a listed edition: the edition passes to the buyer.
    pub open spec fn buy(
        self,
        token_id: TokenId,
        edition_number: EditionNumber,
        buyer: AccountName,
        payment: Balance,
    ) -> Result<MarketState, MarketError> {
        match self.buy_obstacle(token_id, edition_number, buyer, payment) {
            Some(e) => Err(e),
            None => Ok(self.move_edition(self.locate(token_id, edition_number)->0, buyer)),
        }
    }

    /// The creator of a token, as its metadata records it.
    pub open spec fn creator_of(self, token_id: TokenId) -> AccountName {
        self.metadata[self.tokens[token_id as int].metadata as int].creator
    }

    /// The royalty numerator of a token.
    pub open spec fn royalty_of(self, token_id: TokenId) -> u32 {
        self.metadata[self.tokens[token_id as int].metadata as int].royalty
    }

    /// The payments that follow the sale of an edition by `seller` for
    /// `gross_amount`: the platform fee to the fee receiver, the royalty to
    /// the token's creator, the rest to the seller.
    pub open spec fn sale_payments(
        self,
        token_id: TokenId,
        seller: AccountName,
        gross_amount: Balance,
    ) -> Seq<PaymentView> {
        payments_due(
            settlement_split(
                gross_amount,
                seller == self.creator_of(token_id),
                self.royalty_of(token_id),
                self.trade_fee,
            ),
            self.fee_receiver,
            self.creator_of(token_id),
            seller,
        )
    }

    /// The payments that follow a purchase: the whole payment is split,
    /// with the owner before the purchase as seller.
    pub open spec fn buy_payments(
        self,
        token_id: TokenId,
        edition_number: EditionNumber,
        payment: Balance,
    ) -> Seq<PaymentView> {
        self.sale_payments(
            token_id,
            self.editions[self.locate(token_id, edition_number)->0].edition_owner,
            payment,
        )
    }
}

/// Listing an edition leaves a consistent ledger and changes nothing by
/// which the owner of any edition is judged: no token, no edition, no bid,
/// and no state of an edition that is locked or burned.
pub proof fn lemma_list_price_follows(
    s: MarketState,
    token_id: TokenId,
    edition_number: EditionNumber,
    price: TokenPrice,
    caller: AccountName,
)
    requires
        s.inv(),
    ensures
        s.list_price(token_id, edition_number, price, caller) matches Ok(n) ==> {
            &&& n.follows(s, None)
            &&& n.tokens == s.tokens
            &&& n.editions == s.editions
            &&& n.states.len() == s.states.len()
            &&& n.bids == s.bids
            &&& forall|i: int|
                0 <= i < s.states.len() ==> frozen(#[trigger] n.states[i]) == frozen(s.states[i])
                    && (frozen(s.states[i]) ==> n.states[i] == s.states[i])
        },
{
    if s.owner_obstacle(token_id, edition_number, caller) is None {
        lemma_located_edition(s, token_id, edition_number);
        let n = s.list_price(token_id, edition_number, price, caller)->Ok_0;
        assert(n.listings_match_states()) by {
            assert forall|g: u64| #[trigger]
                n.listings.contains_key(g) <==> (1 <= g <= n.editions.len() && n.states[g - 1]
                    == EditionState::LISTED) by {
                assert(s.listings.contains_key(g) <==> (1 <= g <= s.editions.len() && s.states[g
                    - 1] == EditionState::LISTED));
            }
        }
        assert(n.tokens_tile_editions());
        assert(n.grants_are_distinct());
    }
}

/// Listing a batch leaves a consistent ledger and changes nothing by which
/// the owner of any edition is judged.
pub proof fn lemma_list_each_follows(
    s: MarketState,
    token_id: TokenId,
    edition_numbers: Seq<EditionNumber>,
    price: TokenPrice,
    caller: AccountName,
)
    requires
        s.inv(),
    ensures
        s.list_each(token_id, edition_numbers, price, caller) matches Ok(n) ==> {
            &&& n.follows(s, None)
            &&& n.tokens == s.tokens
            &&& n.editions == s.editions
            &&& n.states.len() == s.states.len()
            &&& n.bids == s.bids
            &&& forall|i: int|
                0 <= i < s.states.len() ==> frozen(#[trigger] n.states[i]) == frozen(s.states[i])
                    && (frozen(s.states[i]) ==> n.states[i] == s.states[i])
        },
    decreases edition_numbers.len(),
{
    if edition_numbers.len() > 0 {
        lemma_list_each_follows(s, token_id, edition_numbers.drop_last(), price, caller);
        match s.list_each(token_id, edition_numbers.drop_last(), price, caller) {
            Ok(listed) => {
                lemma_list_price_follows(listed, token_id, edition_numbers.last(), price, caller);
            },
            Err(_) => {},
        }
    }
}

/// Listing one more edition after a batch: an error of the batch stands;
/// after a batch that was listed, the edition is listed exactly if it can be
/// listed on the ledger as it stood before the batch, and its obstacle
/// there is the error otherwise.
pub proof fn lemma_list_one_more(
    s: MarketState,
    token_id: TokenId,
    front: Seq<EditionNumber>,
    last: EditionNumber,
    price: TokenPrice,
    caller: AccountName,
)
    requires
        s.inv(),
    ensures
        s.list_each(token_id, front, price, caller) matches Err(e) ==> s.list_each(
            token_id,
            front.push(last),
            price,
            caller,
        ) == Err::<MarketState, MarketError>(e),
        s.list_each(token_id, front, price, caller) is Ok ==> match s.owner_obstacle(
            token_id,
            last,
            caller,
        ) {
            Some(e) => s.list_each(token_id, front.push(last), price, caller) == Err::<
                MarketState,
                MarketError,
            >(e),
            None => s.list_each(token_id, front.push(last), price, caller) is Ok,
        },
{
    let all = front.push(last);
    assert(all.drop_last() =~= front);
    assert(all.last() == last);
    lemma_list_each_follows(s, token_id, front, price, caller);
    match s.list_each(token_id, front, price, caller) {
        Ok(listed) => {
            if s.has_edition(token_id, last) {
                lemma_located_edition(s, token_id, last);
            }
            assert(listed.owner_obstacle(token_id, last, caller) == s.owner_obstacle(
                token_id,
                last,
                caller,
            ));
        },
        Err(_) => {},
    }
}

/// A batch is listed exactly when each of its editions can be listed on
/// the ledger as it stands; otherwise the first edition that cannot be
/// listed gives the error.
pub proof fn lemma_list_each_by_checks(
    s: MarketState,
    token_id: TokenId,
    edition_numbers: Seq<EditionNumber>,
    price: TokenPrice,
    caller: AccountName,
)
    requires
        s.inv(),
    ensures
        (forall|i: int|
            0 <= i < edition_numbers.len() ==> s.owner_obstacle(
                token_id,
                #[trigger] edition_numbers[i],
                caller,
            ) is None) ==> s.list_each(token_id, edition_numbers, price, caller) is Ok,
        forall|k: int|
            #![trigger edition_numbers[k]]
            0 <= k < edition_numbers.len() && s.owner_obstacle(token_id, edition_numbers[k], caller)
                is Some && (forall|i: int|
                0 <= i < k ==> s.owner_obstacle(token_id, #[trigger] edition_numbers[i], caller)
                    is None) ==> s.list_each(token_id, edition_numbers, price, caller) == Err::<
                MarketState,
                MarketError,
            >(s.owner_obstacle(token_id, edition_numbers[k], caller)->0),
    decreases edition_numbers.len(),
{
    if edition_numbers.len() > 0 {
        let front = edition_numbers.drop_last();
        let last = edition_numbers.last();
        assert(front.push(last) =~= edition_numbers);
        lemma_list_each_by_checks(s, token_id, front, price, caller);
        lemma_list_one_more(s, token_id, front, last, price, caller);
        let whole = s.list_each(token_id, edition_numbers, price, caller);
        let part = s.list_each(token_id, front, price, caller);
        if forall|i: int|
            0 <= i < edition_numbers.len() ==> s.owner_obstacle(
                token_id,
                #[trigger] edition_numbers[i],
                caller,
            ) is None {
            assert forall|i: int| 0 <= i < front.len() implies s.owner_obstacle(
                token_id,
                #[trigger] front[i],
                caller,
            ) is None by {
                assert(front[i] == edition_numbers[i]);
            }
            assert(part is Ok);
            assert(edition_numbers[edition_numbers.len() - 1] == last);
            assert(whole is Ok);
        }
        assert forall|k: int|
            #![trigger edition_numbers[k]]
            0 <= k < edition_numbers.len() && s.owner_obstacle(token_id, edition_numbers[k], caller)
                is Some && (forall|i: int|
                0 <= i < k ==> s.owner_obstacle(token_id, #[trigger] edition_numbers[i], caller)
                    is None) implies whole == Err::<MarketState, MarketError>(
            s.owner_obstacle(token_id, edition_numbers[k], caller)->0,
        ) by {
            if k < front.len() {
                assert(front[k] == edition_numbers[k]);
                assert forall|i: int| 0 <= i < k implies s.owner_obstacle(
                    token_id,
                    #[trigger] front[i],
                    caller,
                ) is None by {
                    assert(front[i] == edition_numbers[i]);
                }
                assert(part == Err::<MarketState, MarketError>(
                    s.owner_obstacle(token_id, front[k], caller)->0,
                ));
            } else {
                assert forall|i: int| 0 <= i < front.len() implies s.owner_obstacle(
                    token_id,
                    #[trigger] front[i],
                    caller,
                ) is None by {
                    assert(front[i] == edition_numbers[i]);
                }
                assert(part is Ok);
                assert(edition_numbers[k] == last);
            }
        }
    }
}

/// Taking an edition off the market leaves a consistent ledger with every
/// edition and bid where it was, with the owner it had.
pub proof fn lemma_cancel_sale_follows(
    s: MarketState,
    token_id: TokenId,
    edition_number: EditionNumber,
    caller: AccountName,
)
    requires
        s.inv(),
    ensures
        s.cancel_sale(token_id, edition_number, caller) matches Ok(n) ==> n.follows(s, None),
{
    if s.holder_obstacle(token_id, edition_number, caller) is None {
        lemma_located_edition(s, token_id, edition_number);
        let n = s.cancel_sale(token_id, edition_number, caller)->Ok_0;
        assert(n.listings_match_states()) by {
            assert forall|g: u64| #[trigger]
                n.listings.contains_key(g) <==> (1 <= g <= n.editions.len() && n.states[g - 1]
                    == EditionState::LISTED) by {
                assert(s.listings.contains_key(g) <==> (1 <= g <= s.editions.len() && s.states[g
                    - 1] == EditionState::LISTED));
            }
        }
        assert(n.tokens_tile_editions());
        assert(n.grants_are_distinct());
    }
}

/// A purchase leaves a consistent ledger in which the edition belongs to
/// the buyer and every other edition to the owner it had. Of the transfer
/// engine's checks only the pause switch can stand in its way.
pub proof fn lemma_buy_follows(
    s: MarketState,
    token_id: TokenId,
    edition_number: EditionNumber,
    buyer: AccountName,
    payment: Balance,
)
    requires
        s.inv(),
    ensures
        s.buy(token_id, edition_number, buyer, payment) matches Ok(n) ==> n.follows(
            s,
            handed(s.locate(token_id, edition_number)->0, buyer),
        ),
        s.price_of(token_id, edition_number) is Ok ==> {
            let slot = s.locate(token_id, edition_number)->0;
            s.transfer_obstacle(
                (slot + 1) as u64,
                s.editions[slot].edition_owner,
                edition_number,
                TransferMode::Sale,
                buyer,
            ) == if s.paused {
                Some(MarketError::Paused)
            } else {
                None
            }
        },
{
    if s.has_edition(token_id, edition_number) {
        lemma_located_edition(s, token_id, edition_number);
        let slot = s.locate(token_id, edition_number)->0;
        if s.buy_obstacle(token_id, edition_number, buyer, payment) is None {
            lemma_move_edition_follows(s, slot, buyer);
        }
    }
}

} // verus!
