//! The transfer engine: the one place where an edition changes its owner.

use vstd::prelude::*;
use crate::error::MarketError;
use crate::model::{EditionState, EditionView, TransferMode};
use crate::state::{frozen, handed, MarketState};
use crate::types::{AccountName, EditionNumber, TokenId};

verus! {

impl MarketState {
    /// The ledger after the edition at `slot` has passed to `to`: the
    /// edition is available and no longer listed, and its allowances are
    /// gone. Escrow grants stay.
    pub open spec fn move_edition(self, slot: int, to: AccountName) -> MarketState {
        MarketState {
            editions: self.editions.update(
                slot,
                EditionView { edition_owner: to, ..self.editions[slot] },
            ),
            states: self.states.update(slot, EditionState::AVAILABLE),
            listings: self.listings.remove((slot + 1) as u64),
            allowances: self.allowances.update(slot, Seq::empty()),
            ..self
        }
    }

    /// Why the edition with global index `index` cannot pass from `from` to
    /// someone else, if so. The checks are made in this order: the ledger is
    /// paused; there is no such edition; the edition is not owned by `from`
    /// or does not have the expected number; it is locked or burned; the
    /// transfer is not part of a sale and `caller` has no permission.
    pub open spec fn transfer_obstacle(
        self,
        index: u64,
        from: AccountName,
        expected_edition_number: EditionNumber,
        mode: TransferMode,
        caller: AccountName,
    ) -> Option<MarketError> {
        if self.paused {
            Some(MarketError::Paused)
        } else if !(1 <= index <= self.editions.len()) {
            Some(MarketError::NotFound)
        } else if self.editions[index - 1].edition_owner != from || self.editions[index
            - 1].edition_number != expected_edition_number {
            Some(MarketError::Unauthorized)
        } else if frozen(self.states[index - 1]) {
            Some(MarketError::InvalidState)
        } else if mode != TransferMode::Sale && !self.is_authorized(from, caller, index - 1) {
            Some(MarketError::Unauthorized)
        } else {
            None
        }
    }

    /// Moves the edition with global index `index` from `from` to `to`.
    pub open spec fn transfer_edition(
        self,
        index: u64,
        from: AccountName,
        to: AccountName,
        expected_edition_number: EditionNumber,
        mode: TransferMode,
        caller: AccountName,
    ) -> Result<MarketState, MarketError> {
        match self.transfer_obstacle(index, from, expected_edition_number, mode, caller) {
            Some(e) => Err(e),
            None => Ok(self.move_edition(index - 1, to)),
        }
    }

    /// The owner gives an edition to `to`.
    pub open spec fn transfer(
        self,
        to: AccountName,
        token_id: TokenId,
        edition_number: EditionNumber,
        caller: AccountName,
    ) -> Result<MarketState, MarketError> {
        match self.locate(token_id, edition_number) {
            None => Err(MarketError::NotFound),
            Some(slot) => self.transfer_edition(
                (slot + 1) as u64,
                caller,
                to,
                edition_number,
                TransferMode::Direct,
                caller,
            ),
        }
    }

    /// `caller` gives an edition of `from` to `to`, by escrow or allowance.
    pub open spec fn transfer_from(
        self,
        from: AccountName,
        to: AccountName,
        token_id: TokenId,
        edition_number: EditionNumber,
        caller: AccountName,
    ) -> Result<MarketState, MarketError> {
        match self.locate(token_id, edition_number) {
            None => Err(MarketError::NotFound),
            Some(slot) => self.transfer_edition(
                (slot + 1) as u64,
                from,
                to,
                edition_number,
                TransferMode::Delegated,
                caller,
            ),
        }
    }
}

/// Moving an edition that is neither locked nor burned leaves a consistent
/// ledger in which that edition belongs to the recipient and every other
/// edition to the owner it had.
pub proof fn lemma_move_edition_follows(s: MarketState, slot: int, to: AccountName)
    requires
        s.inv(),
        0 <= slot < s.editions.len(),
        !frozen(s.states[slot]),
    ensures
        s.move_edition(slot, to).follows(s, handed(slot, to)),
{
    let n = s.move_edition(slot, to);
    assert(n.tokens_tile_editions()) by {
        assert forall|i: int| 0 <= i < n.editions.len() implies {
            let e = #[trigger] n.editions[i];
            &&& e.token_id < n.tokens.len()
            &&& n.tokens[e.token_id as int].edition_index < i + 1
            &&& i + 1 <= n.tokens[e.token_id as int].edition_index
                + n.tokens[e.token_id as int].editions
            &&& e.edition_number == i + 1 - n.tokens[e.token_id as int].edition_index
        } by {
            let e = s.editions[i];
        }
    }
    assert(n.listings_match_states()) by {
        assert forall|g: u64| #[trigger]
            n.listings.contains_key(g) <==> (1 <= g <= n.editions.len() && n.states[g - 1]
                == EditionState::LISTED) by {
            assert(s.listings.contains_key(g) <==> (1 <= g <= s.editions.len() && s.states[g - 1]
                == EditionState::LISTED));
        }
    }
    assert(n.grants_are_distinct()) by {
        assert forall|i: int| 0 <= i < n.allowances.len() implies (
        #[trigger] n.allowances[i]).no_duplicates() by {
            if i != slot {
                assert(n.allowances[i] == s.allowances[i]);
            }
        }
    }
}

/// Whatever the transfer engine lets through leaves a consistent ledger in
/// which the edition belongs to the recipient and every other edition to
/// the owner it had.
pub proof fn lemma_transfer_edition_follows(
    s: MarketState,
    index: u64,
    from: AccountName,
    to: AccountName,
    expected_edition_number: EditionNumber,
    mode: TransferMode,
    caller: AccountName,
)
    requires
        s.inv(),
    ensures
        s.transfer_edition(index, from, to, expected_edition_number, mode, caller) matches Ok(n)
            ==> n.follows(s, handed(index - 1, to)),
{
    if s.transfer_obstacle(index, from, expected_edition_number, mode, caller) is None {
        lemma_move_edition_follows(s, index - 1, to);
    }
}

} // verus!
