//! The permission registry: account-wide escrow grants and per-edition
//! allowances.

use vstd::prelude::*;
use crate::accounts::{lemma_push_keeps_distinct, lemma_without_removes, without};
use crate::error::MarketError;
use crate::state::{lemma_located_edition, MarketState};
use crate::types::{AccountName, EditionNumber, TokenId};

verus! {

impl MarketState {
    /// `caller` lets `delegate` transfer any edition that `caller` owns.
    /// A delegate that already holds the grant is rejected.
    pub open spec fn grant_access(self, caller: AccountName, delegate: AccountName) -> Result<
        MarketState,
        MarketError,
    > {
        if self.delegates_of(caller).contains(delegate) {
            Err(MarketError::AlreadyGranted)
        } else {
            Ok(
                MarketState {
                    escrows: self.escrows.insert(caller, self.delegates_of(caller).push(delegate)),
                    ..self
                },
            )
        }
    }

    /// `caller` takes the escrow grant back from `delegate`. Where there is
    /// no such grant the ledger stays as it is.
    pub open spec fn revoke_access(self, caller: AccountName, delegate: AccountName) -> MarketState {
        if self.delegates_of(caller).contains(delegate) {
            MarketState {
                escrows: self.escrows.insert(caller, without(self.delegates_of(caller), delegate)),
                ..self
            }
        } else {
            self
        }
    }

    /// The owner of an edition lets `account` transfer that one edition.
    /// The state of the edition does not matter, unless it is burned; an
    /// account that holds the allowance already is rejected.
    pub open spec fn grant_edition_allowance(
        self,
        token_id: TokenId,
        edition_number: EditionNumber,
        account: AccountName,
        caller: AccountName,
    ) -> Result<MarketState, MarketError> {
        match self.holder_obstacle(token_id, edition_number, caller) {
            Some(e) => Err(e),
            None => {
                let slot = self.locate(token_id, edition_number)->0;
                if self.allowances[slot].contains(account) {
                    Err(MarketError::AlreadyGranted)
                } else {
                    Ok(
                        MarketState {
                            allowances: self.allowances.update(
                                slot,
                                self.allowances[slot].push(account),
                            ),
                            ..self
                        },
                    )
                }
            },
        }
    }

    /// The owner of an edition takes an allowance on it back. The state of
    /// the edition does not matter, unless it is burned; an account that
    /// holds no allowance is rejected.
    pub open spec fn remove_edition_allowance(
        self,
        token_id: TokenId,
        edition_number: EditionNumber,
        account: AccountName,
        caller: AccountName,
    ) -> Result<MarketState, MarketError> {
        match self.holder_obstacle(token_id, edition_number, caller) {
            Some(e) => Err(e),
            None => {
                let slot = self.locate(token_id, edition_number)->0;
                if !self.allowances[slot].contains(account) {
                    Err(MarketError::NotFound)
                } else {
                    Ok(
                        MarketState {
                            allowances: self.allowances.update(
                                slot,
                                without(self.allowances[slot], account),
                            ),
                            ..self
                        },
                    )
                }
            },
        }
    }

    /// Whether `caller` may transfer the edition with global index `index`
    /// on behalf of `owner`: as the owner, by the owner's escrow grant, or
    /// by an allowance on that edition.
    pub open spec fn authorized_for(
        self,
        owner: AccountName,
        caller: AccountName,
        index: u64,
    ) -> Result<bool, MarketError> {
        if 1 <= index <= self.editions.len() {
            Ok(self.is_authorized(owner, caller, index - 1))
        } else {
            Err(MarketError::NotFound)
        }
    }

    /// Whether `account` holds an allowance on an edition.
    pub open spec fn check_allowance(
        self,
        token_id: TokenId,
        edition_number: EditionNumber,
        account: AccountName,
    ) -> Result<bool, MarketError> {
        match self.locate(token_id, edition_number) {
            None => Err(MarketError::NotFound),
            Some(slot) => Ok(self.allowances[slot].contains(account)),
        }
    }
}

/// Granting and revoking escrow leave a consistent ledger with every
/// edition and bid as it was, and a revoked grant is gone.
pub proof fn lemma_escrow_follows(s: MarketState, caller: AccountName, delegate: AccountName)
    requires
        s.inv(),
    ensures
        s.grant_access(caller, delegate) matches Ok(n) ==> n.follows(s, None),
        s.revoke_access(caller, delegate).follows(s, None),
        !s.revoke_access(caller, delegate).delegates_of(caller).contains(delegate),
{
    let list = s.delegates_of(caller);
    assert(list.no_duplicates());
    if !list.contains(delegate) {
        lemma_push_keeps_distinct(list, delegate);
        let n = s.grant_access(caller, delegate)->Ok_0;
        assert(n.grants_are_distinct()) by {
            assert forall|a: AccountName| n.escrows.contains_key(a) implies (
            #[trigger] n.escrows[a]).no_duplicates() by {
                if a != caller {
                    assert(s.escrows.contains_key(a));
                }
            }
        }
        assert(n.listings_match_states());
        assert(n.tokens_tile_editions());
    } else {
        lemma_without_removes(list, delegate);
        let n = s.revoke_access(caller, delegate);
        assert(n.grants_are_distinct()) by {
            assert forall|a: AccountName| n.escrows.contains_key(a) implies (
            #[trigger] n.escrows[a]).no_duplicates() by {
                if a != caller {
                    assert(s.escrows.contains_key(a));
                }
            }
        }
        assert(n.listings_match_states());
        assert(n.tokens_tile_editions());
    }
}

/// Granting and removing an allowance leave a consistent ledger with every
/// edition and bid as it was, and a removed allowance is gone.
pub proof fn lemma_allowance_follows(
    s: MarketState,
    token_id: TokenId,
    edition_number: EditionNumber,
    account: AccountName,
    caller: AccountName,
)
    requires
        s.inv(),
    ensures
        s.grant_edition_allowance(token_id, edition_number, account, caller) matches Ok(n)
            ==> n.follows(s, None),
        s.remove_edition_allowance(token_id, edition_number, account, caller) matches Ok(n)
            ==> n.follows(s, None) && n.check_allowance(token_id, edition_number, account) == Ok::<
            bool,
            MarketError,
        >(false),
{
    if s.holder_obstacle(token_id, edition_number, caller) is None {
        lemma_located_edition(s, token_id, edition_number);
        let slot = s.locate(token_id, edition_number)->0;
        let list = s.allowances[slot];
        assert(list.no_duplicates());
        if !list.contains(account) {
            lemma_push_keeps_distinct(list, account);
            let n = s.grant_edition_allowance(token_id, edition_number, account, caller)->Ok_0;
            assert(n.grants_are_distinct()) by {
                assert forall|i: int| 0 <= i < n.allowances.len() implies (
                #[trigger] n.allowances[i]).no_duplicates() by {
                    if i != slot {
                        assert(n.allowances[i] == s.allowances[i]);
                    }
                }
            }
            assert(n.listings_match_states());
            assert(n.tokens_tile_editions());
        } else {
            lemma_without_removes(list, account);
            let n = s.remove_edition_allowance(token_id, edition_number, account, caller)->Ok_0;
            assert(n.grants_are_distinct()) by {
                assert forall|i: int| 0 <= i < n.allowances.len() implies (
                #[trigger] n.allowances[i]).no_duplicates() by {
                    if i != slot {
                        assert(n.allowances[i] == s.allowances[i]);
                    }
                }
            }
            assert(n.listings_match_states());
            assert(n.tokens_tile_editions());
        }
    }
}

} // verus!
