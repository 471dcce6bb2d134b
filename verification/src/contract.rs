//! The ledger itself: the stored state and the operations on it. Every
//! operation answers with the outcome that the mathematical ledger gives
//! for it, and a rejected request changes nothing.

use std::collections::HashMap;
use vstd::prelude::*;
use vstd::string::StringExecFns;
use crate::accounts::{
    find_account, holds_account, is_valid_account_id, lemma_first_index_is_unique, merged,
    valid_account_id,
};
use crate::admin::{genesis_collection, lemma_owner_actions_follow};
use crate::catalog::{
    lemma_burn_follows, lemma_collection_minters_follow, lemma_create_collection_follows,
    lemma_mint_follows, minted_editions,
};
use crate::error::MarketError;
use crate::marketplace::{
    lemma_buy_follows, lemma_cancel_sale_follows, lemma_list_each_by_checks,
    lemma_list_each_follows, lemma_list_price_follows,
};
use crate::model::{
    bid_views, clone_bids, clone_names, names, payment_views, Bid, BidView, Collection,
    CollectionView, Edition, EditionState, Metadata, MetadataView, Payment, Token, TransferMode,
};
use crate::offers::{
    lemma_closed_bid_follows, lemma_place_offer_follows, lemma_settled_offer_follows,
};
use crate::permissions::{lemma_allowance_follows, lemma_escrow_follows};
use crate::record::{
    allowance_views, bid_lists, collection_views, edition_views, escrow_map,
    lemma_entry_gives_delegates, lemma_grants_added, lemma_grants_changed, lemma_names_follow,
    metadata_views, one_entry_each, price_map, EscrowRecord, LedgerRecord,
};
use crate::settlement::{payments, settle};
use crate::state::{
    frozen, lemma_initial_state_is_consistent, lemma_located_edition, MarketState,
    INITIAL_CREATE_COLLECTION_FEE, INITIAL_EDITION_STORAGE_FEE, INITIAL_IPFS_HASH_LENGTH,
    INITIAL_MAX_DESCRIPTION_LENGTH, INITIAL_MAX_EDITIONS, INITIAL_MAX_EXTERNAL_LINK,
    INITIAL_MAX_NAME_LENGTH, INITIAL_MINT_STORAGE_FEE, INITIAL_TRADE_FEE, MAX_TAGS,
};
use crate::text::{byte_length, decimal_digits, decimal_string, parse_amount, parsed_amount};
use crate::transfer::lemma_move_edition_follows;
use crate::types::{
    AccountId, AccountName, Balance, CollectionId, EditionNumber, TokenId, TokenPrice,
};

verus! {

broadcast use vstd::std_specs::hash::group_hash_axioms;

/// `result` reports `outcome`; where the outcome is a new ledger, `after`
/// is that ledger, and where it is an error, `after` is `before`.
pub open spec fn carried_out<T>(
    before: MarketState,
    after: MarketState,
    outcome: Result<MarketState, MarketError>,
    result: Result<T, MarketError>,
) -> bool {
    match outcome {
        Ok(next) => result is Ok && after == next,
        Err(e) => result == Err::<T, MarketError>(e) && after == before,
    }
}

/// The marketplace ledger: tokens and their editions, collections,
/// listings, bids and permissions, with the fees and limits that govern
/// them. Its value in contracts is a [`MarketState`].
pub struct NonFungibleToken {
    owner_id: AccountId,
    fee_receiver: AccountId,
    paused: bool,
    mint_storage_fee: Balance,
    edition_storage_fee: Balance,
    create_collection_fee: Balance,
    trade_fee: Balance,
    max_name_length: u8,
    max_description_length: u8,
    ipfs_hash_length: u8,
    max_editions: u8,
    max_external_link: u8,
    minters: Vec<AccountId>,
    tokens: Vec<Token>,
    metadata: Vec<Metadata>,
    genesis: Option<Collection>,
    collections: Vec<Collection>,
    editions: Vec<Edition>,
    edition_states: Vec<EditionState>,
    marketplace: HashMap<u64, TokenPrice>,
    edition_allowances: Vec<Vec<AccountId>>,
    offers: Vec<Vec<Bid>>,
    account_gives_access: Vec<EscrowRecord>,
}

impl View for NonFungibleToken {
    type V = MarketState;

    closed spec fn view(&self) -> MarketState {
        MarketState {
            owner_id: self.owner_id@,
            fee_receiver: self.fee_receiver@,
            paused: self.paused,
            mint_storage_fee: self.mint_storage_fee,
            edition_storage_fee: self.edition_storage_fee,
            create_collection_fee: self.create_collection_fee,
            trade_fee: self.trade_fee,
            max_name_length: self.max_name_length,
            max_description_length: self.max_description_length,
            ipfs_hash_length: self.ipfs_hash_length,
            max_editions: self.max_editions,
            max_external_link: self.max_external_link,
            minters: names(self.minters@),
            tokens: self.tokens@,
            metadata: metadata_views(self.metadata@),
            genesis: match self.genesis {
                Some(collection) => Some(collection@),
                None => None,
            },
            collections: collection_views(self.collections@),
            editions: edition_views(self.editions@),
            states: self.edition_states@,
            listings: self.marketplace@,
            allowances: allowance_views(self.edition_allowances@),
            bids: bid_lists(self.offers@),
            escrows: escrow_map(self.account_gives_access@),
        }
    }
}

/// Whether an edition in this state is withheld from transfers, listings
/// and bids.
fn is_frozen(state: EditionState) -> (held: bool)
    ensures
        held == frozen(state),
{
    match state {
        EditionState::LOCKED => true,
        EditionState::BURNED => true,
        _ => false,
    }
}

/// Creates the editions of a new token: `count` of them, numbered from 1,
/// owned by `owner`, available, with no allowance and no bid.
fn generate_editions(
    editions: &mut Vec<Edition>,
    states: &mut Vec<EditionState>,
    allowances: &mut Vec<Vec<AccountId>>,
    offers: &mut Vec<Vec<Bid>>,
    new_token_id: TokenId,
    count: EditionNumber,
    owner: &AccountId,
)
    ensures
        edition_views(final(editions)@) == edition_views(old(editions)@) + minted_editions(
            new_token_id,
            owner@,
            count as nat,
        ),
        final(states)@ == old(states)@ + Seq::new(count as nat, |k: int| EditionState::AVAILABLE),
        allowance_views(final(allowances)@) == allowance_views(old(allowances)@) + Seq::new(
            count as nat,
            |k: int| Seq::<AccountName>::empty(),
        ),
        bid_lists(final(offers)@) == bid_lists(old(offers)@) + Seq::new(
            count as nat,
            |k: int| Seq::<BidView>::empty(),
        ),
{
    let mut i: u64 = 0;
    while i < count
        invariant
            i <= count,
            edition_views(editions@) == edition_views(old(editions)@) + minted_editions(
                new_token_id,
                owner@,
                i as nat,
            ),
            states@ == old(states)@ + Seq::new(i as nat, |k: int| EditionState::AVAILABLE),
            allowance_views(allowances@) == allowance_views(old(allowances)@) + Seq::new(
                i as nat,
                |k: int| Seq::<AccountName>::empty(),
            ),
            bid_lists(offers@) == bid_lists(old(offers)@) + Seq::new(
                i as nat,
                |k: int| Seq::<BidView>::empty(),
            ),
        decreases count - i,
    {
        let ghost editions_before = editions@;
        let ghost states_before = states@;
        let ghost allowances_before = allowances@;
        let ghost offers_before = offers@;
        editions.push(
            Edition { edition_owner: owner.clone(), edition_number: i + 1, token_id: new_token_id },
        );
        states.push(EditionState::AVAILABLE);
        allowances.push(Vec::new());
        offers.push(Vec::new());
        proof {
            assert(edition_views(editions@) =~= edition_views(editions_before).push(
                editions@.last()@,
            ));
            assert(edition_views(editions@) =~= edition_views(old(editions)@) + minted_editions(
                new_token_id,
                owner@,
                (i + 1) as nat,
            ));
            assert(states@ =~= old(states)@ + Seq::new(
                (i + 1) as nat,
                |k: int| EditionState::AVAILABLE,
            ));
            assert(names(allowances@.last()@) =~= Seq::<AccountName>::empty());
            assert(allowance_views(allowances@) =~= allowance_views(allowances_before).push(
                Seq::<AccountName>::empty(),
            ));
            assert(allowance_views(allowances@) =~= allowance_views(old(allowances)@) + Seq::new(
                (i + 1) as nat,
                |k: int| Seq::<AccountName>::empty(),
            ));
            assert(bid_views(offers@.last()@) =~= Seq::<BidView>::empty());
            assert(bid_lists(offers@) =~= bid_lists(offers_before).push(Seq::<BidView>::empty()));
            assert(bid_lists(offers@) =~= bid_lists(old(offers)@) + Seq::new(
                (i + 1) as nat,
                |k: int| Seq::<BidView>::empty(),
            ));
        }
        i += 1;
    }
}

impl NonFungibleToken {
    /// Whether the stored state is laid out as the operations expect.
    pub closed spec fn stored_well(&self) -> bool {
        one_entry_each(self.account_gives_access@)
    }

    /// Whether this ledger is one that the operations can work on: its
    /// value is consistent and its storage is in order. A new ledger is,
    /// and every operation keeps it so.
    pub open spec fn wf(&self) -> bool {
        self@.inv() && self.stored_well()
    }

    /// Sets up a ledger for an owner whose account identifier has been
    /// tested: the ledger is created if the identifier is valid.
    pub fn from_validated(owner_id: AccountId, fee_receiver: AccountId, owner_is_valid: bool) -> (result:
        Result<Self, MarketError>)
        ensures
            match result {
                Ok(ledger) => owner_is_valid && ledger.wf() && ledger@ == MarketState::initial(
                    owner_id@,
                    fee_receiver@,
                ),
                Err(e) => !owner_is_valid && e == MarketError::ValidationFailed,
            },
    {
        if !owner_is_valid {
            return Err(MarketError::ValidationFailed);
        }
        let ledger = NonFungibleToken {
            owner_id,
            fee_receiver,
            paused: true,
            mint_storage_fee: INITIAL_MINT_STORAGE_FEE,
            edition_storage_fee: INITIAL_EDITION_STORAGE_FEE,
            create_collection_fee: INITIAL_CREATE_COLLECTION_FEE,
            trade_fee: INITIAL_TRADE_FEE,
            max_name_length: INITIAL_MAX_NAME_LENGTH,
            max_description_length: INITIAL_MAX_DESCRIPTION_LENGTH,
            ipfs_hash_length: INITIAL_IPFS_HASH_LENGTH,
            max_editions: INITIAL_MAX_EDITIONS,
            max_external_link: INITIAL_MAX_EXTERNAL_LINK,
            minters: Vec::new(),
            tokens: Vec::new(),
            metadata: Vec::new(),
            genesis: None,
            collections: Vec::new(),
            editions: Vec::new(),
            edition_states: Vec::new(),
            marketplace: HashMap::new(),
            edition_allowances: Vec::new(),
            offers: Vec::new(),
            account_gives_access: Vec::new(),
        };
        proof {
            lemma_initial_state_is_consistent(owner_id@, fee_receiver@);
            assert(ledger@ =~~= MarketState::initial(owner_id@, fee_receiver@));
        }
        Ok(ledger)
    }

    /// Sets up a ledger owned by `owner_id`, whose fees go to
    /// `fee_receiver`. An owner whose account identifier is not valid is
    /// rejected. The new ledger is paused.
    pub fn new(owner_id: AccountId, fee_receiver: AccountId) -> (result: Result<Self, MarketError>)
        ensures
            match result {
                Ok(ledger) => valid_account_id(owner_id@) && ledger.wf() && ledger@
                    == MarketState::initial(owner_id@, fee_receiver@),
                Err(e) => !valid_account_id(owner_id@) && e == MarketError::ValidationFailed,
            },
    {
        let owner_is_valid = is_valid_account_id(&owner_id);
        Self::from_validated(owner_id, fee_receiver, owner_is_valid)
    }

    /// Makes a ledger of a record, if the record is consistent.
    pub fn from_record(record: LedgerRecord) -> (result: Result<Self, MarketError>)
        ensures
            match result {
                Ok(ledger) => record.consistent() && ledger.wf() && ledger@ == record@,
                Err(e) => !record.consistent() && e == MarketError::ValidationFailed,
            },
    {
        if !record.is_consistent() {
            return Err(MarketError::ValidationFailed);
        }
        let mut marketplace: HashMap<u64, TokenPrice> = HashMap::new();
        let mut i: usize = 0;
        assert(marketplace@ =~= price_map(record.prices@.take(0)));
        while i < record.prices.len()
            invariant
                i <= record.prices.len(),
                marketplace@ == price_map(record.prices@.take(i as int)),
            decreases record.prices.len() - i,
        {
            match record.prices[i] {
                Some(price) => {
                    marketplace.insert(i as u64 + 1, price);
                },
                None => {},
            }
            assert(marketplace@ =~= price_map(record.prices@.take(i + 1)));
            i += 1;
        }
        assert(record.prices@.take(record.prices.len() as int) =~= record.prices@);
        let ledger = NonFungibleToken {
            owner_id: record.owner_id,
            fee_receiver: record.fee_receiver,
            paused: record.paused,
            mint_storage_fee: record.mint_storage_fee,
            edition_storage_fee: record.edition_storage_fee,
            create_collection_fee: record.create_collection_fee,
            trade_fee: record.trade_fee,
            max_name_length: record.max_name_length,
            max_description_length: record.max_description_length,
            ipfs_hash_length: record.ipfs_hash_length,
            max_editions: record.max_editions,
            max_external_link: record.max_external_link,
            minters: record.minters,
            tokens: record.tokens,
            metadata: record.metadata,
            genesis: record.genesis,
            collections: record.collections,
            editions: record.editions,
            edition_states: record.edition_states,
            marketplace,
            edition_allowances: record.edition_allowances,
            offers: record.offers,
            account_gives_access: record.account_gives_access,
        };
        assert(ledger@ =~~= record@);
        Ok(ledger)
    }

    /// Turns the ledger into a record of all it holds.
    pub fn into_record(self) -> (record: LedgerRecord)
        requires
            self.wf(),
        ensures
            record@ == self@,
            record.consistent(),
    {
        let mut prices: Vec<Option<TokenPrice>> = Vec::new();
        let mut i: usize = 0;
        while i < self.editions.len()
            invariant
                i <= self.editions.len(),
                prices.len() == i,
                forall|k: int|
                    0 <= k < i ==> #[trigger] prices[k] == if self.marketplace@.contains_key(
                        (k + 1) as u64,
                    ) {
                        Some(self.marketplace@[(k + 1) as u64])
                    } else {
                        None::<TokenPrice>
                    },
            decreases self.editions.len() - i,
        {
            let index = i as u64 + 1;
            let price = match self.marketplace.get(&index) {
                Some(price) => Some(*price),
                None => None,
            };
            prices.push(price);
            i += 1;
        }
        proof {
            assert(self@.editions.len() == self.editions.len());
            assert(self@.listings == self.marketplace@);
            assert forall|g: u64| #[trigger]
                self.marketplace@.contains_key(g) <==> price_map(prices@).contains_key(g) by {
                if 1 <= g <= prices.len() {
                    assert(prices[g - 1] is Some <==> self.marketplace@.contains_key(g));
                }
            }
            assert(price_map(prices@) =~= self.marketplace@);
        }
        let record = LedgerRecord {
            owner_id: self.owner_id,
            fee_receiver: self.fee_receiver,
            paused: self.paused,
            mint_storage_fee: self.mint_storage_fee,
            edition_storage_fee: self.edition_storage_fee,
            create_collection_fee: self.create_collection_fee,
            trade_fee: self.trade_fee,
            max_name_length: self.max_name_length,
            max_description_length: self.max_description_length,
            ipfs_hash_length: self.ipfs_hash_length,
            max_editions: self.max_editions,
            max_external_link: self.max_external_link,
            minters: self.minters,
            tokens: self.tokens,
            metadata: self.metadata,
            genesis: self.genesis,
            collections: self.collections,
            editions: self.editions,
            edition_states: self.edition_states,
            prices,
            edition_allowances: self.edition_allowances,
            offers: self.offers,
            account_gives_access: self.account_gives_access,
        };
        assert(record@ =~~= self@);
        record
    }

    /// Finds the place of an edition of a token.
    fn slot_of(&self, token_id: TokenId, edition_number: EditionNumber) -> (found: Option<usize>)
        requires
            self.wf(),
        ensures
            match found {
                Some(slot) => self@.locate(token_id, edition_number) == Some(slot as int) && slot
                    < self.editions.len() && self@.editions[slot as int].token_id == token_id
                    && self@.editions[slot as int].edition_number == edition_number,
                None => self@.locate(token_id, edition_number) is None,
            },
    {
        if token_id >= self.tokens.len() as u64 {
            return None;
        }
        let token = self.tokens[token_id as usize];
        if edition_number < 1 || edition_number > token.editions {
            return None;
        }
        proof {
            lemma_located_edition(self@, token_id, edition_number);
            assert(self@.editions.len() == self.editions.len());
        }
        let index: u64 = token.edition_index + edition_number;
        Some((index - 1) as usize)
    }

    /// Finds the escrow grants of an account.
    fn grants_at(&self, account: &AccountId) -> (found: Option<usize>)
        requires
            self.wf(),
        ensures
            match found {
                Some(i) => i < self.account_gives_access.len()
                    && self.account_gives_access[i as int].account@ == account@
                    && self@.escrows.contains_key(account@) && self@.escrows[account@] == names(
                    self.account_gives_access[i as int].delegates@,
                ),
                None => !self@.escrows.contains_key(account@),
            },
    {
        let mut i: usize = 0;
        while i < self.account_gives_access.len()
            invariant
                self.wf(),
                i <= self.account_gives_access.len(),
                forall|j: int| 0 <= j < i ==> self.account_gives_access[j].account@ != account@,
            decreases self.account_gives_access.len() - i,
        {
            if self.account_gives_access[i].account == *account {
                proof {
                    lemma_entry_gives_delegates(self.account_gives_access@, i as int);
                }
                return Some(i);
            }
            i += 1;
        }
        None
    }

    /// Whether `account_id` has granted escrow to `escrow_id`.
    pub fn is_escrow(&self, account_id: AccountId, escrow: AccountId) -> (granted: bool)
        requires
            self.wf(),
        ensures
            granted == self@.delegates_of(account_id@).contains(escrow@),
    {
        match self.grants_at(&account_id) {
            Some(i) => holds_account(&self.account_gives_access[i].delegates, &escrow),
            None => false,
        }
    }

    /// Whether `caller` may transfer the edition with global index
    /// `edition_index` on behalf of `owner`: as the owner, by the owner's
    /// escrow grant, or by an allowance on that edition.
    pub fn is_authorized(&self, owner: &AccountId, caller: &AccountId, edition_index: u64) -> (result:
        Result<bool, MarketError>)
        requires
            self.wf(),
        ensures
            result == self@.authorized_for(owner@, caller@, edition_index),
    {
        proof {
            assert(self@.editions.len() == self.editions.len());
        }
        if 1 <= edition_index && edition_index <= self.editions.len() as u64 {
            Ok(self.is_authorized_at(owner, caller, (edition_index - 1) as usize))
        } else {
            Err(MarketError::NotFound)
        }
    }

    /// Whether `caller` may move the edition at `slot` for `owner`.
    fn is_authorized_at(&self, owner: &AccountId, caller: &AccountId, slot: usize) -> (allowed: bool)
        requires
            self.wf(),
            slot < self.editions.len(),
        ensures
            allowed == self@.is_authorized(owner@, caller@, slot as int),
    {
        if *caller == *owner {
            return true;
        }
        if self.is_escrow(owner.clone(), caller.clone()) {
            return true;
        }
        holds_account(&self.edition_allowances[slot], caller)
    }

    /// Finds the place of an edition that `caller` may tend to as owner.
    fn held_slot(&self, token_id: TokenId, edition_number: EditionNumber, caller: &AccountId) -> (found:
        Result<usize, MarketError>)
        requires
            self.wf(),
        ensures
            match found {
                Ok(slot) => self@.holder_obstacle(token_id, edition_number, caller@) is None
                    && self@.locate(token_id, edition_number) == Some(slot as int) && slot
                    < self.editions.len(),
                Err(e) => self@.holder_obstacle(token_id, edition_number, caller@) == Some(e),
            },
    {
        match self.slot_of(token_id, edition_number) {
            None => Err(MarketError::NotFound),
            Some(slot) => {
                if !(self.editions[slot].edition_owner == *caller) {
                    return Err(MarketError::Unauthorized);
                }
                match self.edition_states[slot] {
                    EditionState::BURNED => Err(MarketError::InvalidState),
                    _ => Ok(slot),
                }
            },
        }
    }

    /// Finds the place of an edition that `caller` may list or burn as
    /// owner.
    fn owned_slot(&self, token_id: TokenId, edition_number: EditionNumber, caller: &AccountId) -> (found:
        Result<usize, MarketError>)
        requires
            self.wf(),
        ensures
            match found {
                Ok(slot) => self@.owner_obstacle(token_id, edition_number, caller@) is None
                    && self@.locate(token_id, edition_number) == Some(slot as int) && slot
                    < self.editions.len(),
                Err(e) => self@.owner_obstacle(token_id, edition_number, caller@) == Some(e),
            },
    {
        match self.slot_of(token_id, edition_number) {
            None => Err(MarketError::NotFound),
            Some(slot) => {
                if !(self.editions[slot].edition_owner == *caller) {
                    Err(MarketError::Unauthorized)
                } else if is_frozen(self.edition_states[slot]) {
                    Err(MarketError::InvalidState)
                } else {
                    Ok(slot)
                }
            },
        }
    }

    /// The transfer engine: moves the edition with global index `index`
    /// from `from` to `to` after the checks that the mode calls for. It is
    /// the only code that changes the owner of an edition, and it is not
    /// public because the sale mode skips the permission check.
    fn transfer_edition(
        &mut self,
        index: u64,
        from: &AccountId,
        to: AccountId,
        expected_edition_number: EditionNumber,
        mode: TransferMode,
        caller: &AccountId,
    ) -> (result: Result<(), MarketError>)
        requires
            old(self).wf(),
        ensures
            final(self).wf(),
            carried_out(
                old(self)@,
                final(self)@,
                old(self)@.transfer_edition(
                    index,
                    from@,
                    to@,
                    expected_edition_number,
                    mode,
                    caller@,
                ),
                result,
            ),
    {
        if self.paused {
            return Err(MarketError::Paused);
        }
        if index < 1 || index > self.editions.len() as u64 {
            return Err(MarketError::NotFound);
        }
        let slot = (index - 1) as usize;
        if !(self.editions[slot].edition_owner == *from) || self.editions[slot].edition_number
            != expected_edition_number {
            return Err(MarketError::Unauthorized);
        }
        if is_frozen(self.edition_states[slot]) {
            return Err(MarketError::InvalidState);
        }
        let by_sale = match mode {
            TransferMode::Sale => true,
            _ => false,
        };
        if !by_sale && !self.is_authorized_at(from, caller, slot) {
            return Err(MarketError::Unauthorized);
        }
        proof {
            lemma_move_edition_follows(self@, slot as int, to@);
        }
        self.editions[slot].edition_owner = to;
        self.edition_states[slot] = EditionState::AVAILABLE;
        self.marketplace.remove(&index);
        self.edition_allowances[slot] = Vec::new();
        assert(self@ =~~= old(self)@.move_edition(slot as int, to@));
        Ok(())
    }
}

impl NonFungibleToken {
    /// Whether a deposit covers the fee for minting a token with
    /// `editions` editions.
    fn covers_mint_fee(&self, attached_deposit: Balance, editions: EditionNumber) -> (covered: bool)
        ensures
            covered == (attached_deposit >= self@.mint_fee_due(editions)),
    {
        match self.edition_storage_fee.checked_mul(editions as u128) {
            None => false,
            Some(for_editions) => match self.mint_storage_fee.checked_add(for_editions) {
                None => false,
                Some(due) => attached_deposit >= due,
            },
        }
    }

    /// Whether the ledger accepts this metadata for a new token.
    fn validate_token(&self, meta: &Metadata) -> (valid: bool)
        ensures
            valid == self@.valid_token_metadata(meta@),
    {
        proof {
            assert(meta@.tags.len() == meta.tags.len());
            assert(self@.tokens.len() == self.tokens.len());
            assert(self@.editions.len() == self.editions.len());
        }
        meta.editions <= self.max_editions as u64 && byte_length(&meta.description)
            <= self.max_description_length as usize && byte_length(&meta.name)
            < self.max_name_length as usize && byte_length(&meta.external_link)
            <= self.max_external_link as usize && meta.tags.len() <= MAX_TAGS
            && (self.tokens.len() as u64) < u64::MAX && (self.editions.len() as u64).checked_add(
            meta.editions,
        ).is_some()
    }

    /// Whether the ledger accepts this collection.
    fn validate_collection(&self, meta: &Collection) -> (valid: bool)
        ensures
            valid == self@.valid_collection(meta@),
    {
        proof {
            assert(self@.collections.len() == self.collections.len());
        }
        byte_length(&meta.name) <= self.max_name_length as usize && byte_length(&meta.description)
            <= self.max_description_length as usize && byte_length(&meta.thumbnail)
            == self.ipfs_hash_length as usize && (self.collections.len() as u64) < u64::MAX - 1
    }

    /// Finds a collection.
    fn collection_at(&self, collection_id: CollectionId) -> (found: Option<&Collection>)
        ensures
            match found {
                Some(collection) => self@.collection(collection_id) == Some(collection@),
                None => self@.collection(collection_id) is None,
            },
    {
        proof {
            assert(self@.collections.len() == self.collections.len());
        }
        if collection_id == 0 {
            self.genesis.as_ref()
        } else if collection_id <= self.collections.len() as u64 {
            Some(&self.collections[(collection_id - 1) as usize])
        } else {
            None
        }
    }

    /// Mints a token with the editions that its metadata asks for, all
    /// owned by `caller`, and returns the token's id. The metadata is
    /// stored with `caller` as creator and `timestamp` as date.
    pub fn mint_token(
        &mut self,
        metadata: Metadata,
        caller: &AccountId,
        attached_deposit: Balance,
        timestamp: u64,
    ) -> (result: Result<TokenId, MarketError>)
        requires
            old(self).wf(),
        ensures
            final(self).wf(),
            carried_out(
                old(self)@,
                final(self)@,
                old(self)@.mint(metadata@, caller@, attached_deposit, timestamp),
                result,
            ),
            result matches Ok(token_id) ==> token_id == old(self)@.current_supply(),
    {
        proof {
            lemma_mint_follows(self@, metadata@, caller@, attached_deposit, timestamp);
        }
        if !self.covers_mint_fee(attached_deposit, metadata.editions) {
            return Err(MarketError::InsufficientDeposit);
        }
        if !self.validate_token(&metadata) {
            return Err(MarketError::ValidationFailed);
        }
        let allowed = match self.collection_at(metadata.collection_id) {
            None => {
                return Err(MarketError::NotFound);
            },
            Some(collection) => if metadata.collection_id == 0 {
                holds_account(&self.minters, caller)
            } else {
                holds_account(&collection.minters, caller)
            },
        };
        if !allowed {
            return Err(MarketError::Unauthorized);
        }
        proof {
            assert(self@.tokens.len() == self.tokens.len());
            assert(self@.editions.len() == self.editions.len());
        }
        let new_token_id = self.tokens.len() as u64;
        let count = metadata.editions;
        let ghost given = metadata@;
        let mut stored = metadata;
        stored.creator = caller.clone();
        stored.date = decimal_string(timestamp);
        self.tokens.push(
            Token {
                edition_index: self.editions.len() as u64,
                editions: count,
                metadata: new_token_id,
            },
        );
        self.metadata.push(stored);
        generate_editions(
            &mut self.editions,
            &mut self.edition_states,
            &mut self.edition_allowances,
            &mut self.offers,
            new_token_id,
            count,
            caller,
        );
        proof {
            assert(metadata_views(self.metadata@) =~= metadata_views(old(self).metadata@).push(
                MetadataView {
                    creator: caller@,
                    date: decimal_digits(timestamp as nat),
                    ..given
                },
            ));
            assert(self@ =~~= old(self)@.with_minted(given, caller@, timestamp));
        }
        Ok(new_token_id)
    }

    /// Creates a collection with `caller` as creator and first minter,
    /// followed by the minters that came with the request, each once, and
    /// returns the collection's id.
    pub fn create_collection(
        &mut self,
        collection: Collection,
        caller: &AccountId,
        attached_deposit: Balance,
        timestamp: u64,
    ) -> (result: Result<CollectionId, MarketError>)
        requires
            old(self).wf(),
        ensures
            final(self).wf(),
            carried_out(
                old(self)@,
                final(self)@,
                old(self)@.create_collection(collection@, caller@, attached_deposit, timestamp),
                result,
            ),
            result matches Ok(collection_id) ==> collection_id == old(self)@.total_collections()
                + 1,
    {
        proof {
            lemma_create_collection_follows(
                self@,
                collection@,
                caller@,
                attached_deposit,
                timestamp,
            );
            assert(self@.collections.len() == self.collections.len());
        }
        if attached_deposit < self.create_collection_fee {
            return Err(MarketError::InsufficientDeposit);
        }
        if !self.validate_collection(&collection) {
            return Err(MarketError::ValidationFailed);
        }
        if !holds_account(&self.minters, caller) {
            return Err(MarketError::Unauthorized);
        }
        let ghost given = collection@;
        let mut minters: Vec<AccountId> = Vec::new();
        minters.push(caller.clone());
        assert(names(minters@) =~= seq![caller@]);
        assert(names(collection.minters@).take(0) =~= Seq::<AccountName>::empty());
        let mut i: usize = 0;
        while i < collection.minters.len()
            invariant
                i <= collection.minters.len(),
                names(minters@) == merged(seq![caller@], names(collection.minters@).take(i as int)),
            decreases collection.minters.len() - i,
        {
            proof {
                let more = names(collection.minters@).take(i + 1);
                assert(more.drop_last() =~= names(collection.minters@).take(i as int));
                assert(more.last() == collection.minters[i as int]@);
                lemma_names_follow(minters@, collection.minters[i as int], 0);
            }
            if !holds_account(&minters, &collection.minters[i]) {
                minters.push(collection.minters[i].clone());
            }
            i += 1;
        }
        proof {
            assert(names(collection.minters@).take(collection.minters.len() as int) =~= names(
                collection.minters@,
            ));
        }
        let mut stored = collection;
        stored.minters = minters;
        stored.creator = caller.clone();
        stored.date = decimal_string(timestamp);
        self.collections.push(stored);
        proof {
            assert(collection_views(self.collections@) =~= collection_views(
                old(self).collections@,
            ).push(
                CollectionView {
                    creator: caller@,
                    date: decimal_digits(timestamp as nat),
                    minters: merged(seq![caller@], given.minters),
                    ..given
                },
            ));
            assert(self@ =~~= old(self)@.create_collection(
                given,
                caller@,
                attached_deposit,
                timestamp,
            )->Ok_0);
        }
        Ok(self.collections.len() as u64)
    }

    /// The creator of a collection adds `person` to its minters.
    pub fn add_collection_minter(
        &mut self,
        collection_id: CollectionId,
        person: AccountId,
        caller: &AccountId,
    ) -> (result: Result<(), MarketError>)
        requires
            old(self).wf(),
        ensures
            final(self).wf(),
            carried_out(
                old(self)@,
                final(self)@,
                old(self)@.add_collection_minter(collection_id, person@, caller@),
                result,
            ),
    {
        proof {
            lemma_collection_minters_follow(self@, collection_id, person@, caller@);
            assert(self@.collections.len() == self.collections.len());
        }
        match self.collection_at(collection_id) {
            None => {
                return Err(MarketError::NotFound);
            },
            Some(collection) => {
                if !(collection.creator == *caller) {
                    return Err(MarketError::Unauthorized);
                }
                if holds_account(&collection.minters, &person) {
                    return Err(MarketError::AlreadyExists);
                }
            },
        }
        if collection_id == 0 {
            match &mut self.genesis {
                Some(genesis) => {
                    proof {
                        lemma_names_follow(genesis.minters@, person, 0);
                    }
                    genesis.minters.push(person);
                },
                None => {},
            }
        } else {
            let at = (collection_id - 1) as usize;
            proof {
                lemma_names_follow(self.collections[at as int].minters@, person, 0);
            }
            self.collections[at].minters.push(person);
        }
        proof {
            assert(self@ =~~= old(self)@.add_collection_minter(
                collection_id,
                person@,
                caller@,
            )->Ok_0);
        }
        Ok(())
    }

    /// The creator of a collection removes `person` from its minters. The
    /// creator cannot be removed.
    pub fn remove_collection_minter(
        &mut self,
        collection_id: CollectionId,
        person: AccountId,
        caller: &AccountId,
    ) -> (result: Result<(), MarketError>)
        requires
            old(self).wf(),
        ensures
            final(self).wf(),
            carried_out(
                old(self)@,
                final(self)@,
                old(self)@.remove_collection_minter(collection_id, person@, caller@),
                result,
            ),
            result is Ok ==> !final(self)@.collection(collection_id)->0.minters.contains(person@),
    {
        proof {
            lemma_collection_minters_follow(self@, collection_id, person@, caller@);
            assert(self@.collections.len() == self.collections.len());
        }
        let at = match self.collection_at(collection_id) {
            None => {
                return Err(MarketError::NotFound);
            },
            Some(collection) => {
                if !(collection.creator == *caller) {
                    return Err(MarketError::Unauthorized);
                }
                if person == collection.creator {
                    return Err(MarketError::ValidationFailed);
                }
                match find_account(&collection.minters, &person) {
                    None => {
                        return Err(MarketError::NotFound);
                    },
                    Some(at) => at,
                }
            },
        };
        proof {
            let minters = if collection_id == 0 {
                self.genesis->0.minters@
            } else {
                self.collections[collection_id - 1].minters@
            };
            lemma_first_index_is_unique(names(minters), person@, at as int);
            lemma_names_follow(minters, person, at as int);
        }
        if collection_id == 0 {
            match &mut self.genesis {
                Some(genesis) => {
                    genesis.minters.remove(at);
                },
                None => {},
            }
        } else {
            self.collections[(collection_id - 1) as usize].minters.remove(at);
        }
        proof {
            assert(self@ =~~= old(self)@.remove_collection_minter(
                collection_id,
                person@,
                caller@,
            )->Ok_0);
        }
        Ok(())
    }

    /// The owner of an edition destroys it. The edition keeps its index and
    /// its last owner, and can never be transferred, listed or bid on
    /// again.
    pub fn burn_edition(&mut self, token_id: TokenId, edition_id: EditionNumber, caller: &AccountId) -> (result:
        Result<(), MarketError>)
        requires
            old(self).wf(),
        ensures
            final(self).wf(),
            carried_out(
                old(self)@,
                final(self)@,
                old(self)@.burn_edition(token_id, edition_id, caller@),
                result,
            ),
    {
        proof {
            lemma_burn_follows(self@, token_id, edition_id, caller@);
        }
        let slot = match self.owned_slot(token_id, edition_id, caller) {
            Ok(slot) => slot,
            Err(e) => {
                return Err(e);
            },
        };
        let to_burn_idx = slot as u64 + 1;
        self.marketplace.remove(&to_burn_idx);
        self.edition_states[slot] = EditionState::BURNED;
        self.edition_allowances[slot] = Vec::new();
        proof {
            assert(self@ =~~= old(self)@.burn_edition(token_id, edition_id, caller@)->Ok_0);
        }
        Ok(())
    }
}

impl NonFungibleToken {
    /// The owner of an edition offers it for sale at `price`, or changes
    /// the price of one that is listed.
    pub fn list_price(
        &mut self,
        token_id: TokenId,
        edition_id: EditionNumber,
        price: TokenPrice,
        caller: &AccountId,
    ) -> (result: Result<(), MarketError>)
        requires
            old(self).wf(),
        ensures
            final(self).wf(),
            carried_out(
                old(self)@,
                final(self)@,
                old(self)@.list_price(token_id, edition_id, price, caller@),
                result,
            ),
    {
        proof {
            lemma_list_price_follows(self@, token_id, edition_id, price, caller@);
        }
        let slot = match self.owned_slot(token_id, edition_id, caller) {
            Ok(slot) => slot,
            Err(e) => {
                return Err(e);
            },
        };
        self.marketplace.insert(slot as u64 + 1, price);
        self.edition_states[slot] = EditionState::LISTED;
        proof {
            assert(self@ =~~= old(self)@.list_price(token_id, edition_id, price, caller@)->Ok_0);
        }
        Ok(())
    }

    /// The owner of an edition offers it for sale at the price that the
    /// decimal string `price_as_yoctonear` denotes. A string that denotes
    /// no amount is rejected.
    pub fn set_price(
        &mut self,
        token_id: TokenId,
        edition_id: EditionNumber,
        price_as_yoctonear: String,
        caller: &AccountId,
    ) -> (result: Result<(), MarketError>)
        requires
            old(self).wf(),
        ensures
            final(self).wf(),
            carried_out(
                old(self)@,
                final(self)@,
                match parsed_amount(price_as_yoctonear@) {
                    None => Err(MarketError::ValidationFailed),
                    Some(price) => old(self)@.list_price(token_id, edition_id, price, caller@),
                },
                result,
            ),
    {
        match parse_amount(&price_as_yoctonear) {
            None => Err(MarketError::ValidationFailed),
            Some(price) => self.list_price(token_id, edition_id, price, caller),
        }
    }

    /// The owner of several editions of a token offers them for sale at
    /// one price. Either all of them are listed or none is.
    pub fn batch_list_price(
        &mut self,
        token_id: TokenId,
        edition_ids: &Vec<EditionNumber>,
        price: TokenPrice,
        caller: &AccountId,
    ) -> (result: Result<(), MarketError>)
        requires
            old(self).wf(),
        ensures
            final(self).wf(),
            carried_out(
                old(self)@,
                final(self)@,
                old(self)@.list_batch(token_id, edition_ids@, price, caller@),
                result,
            ),
    {
        if edition_ids.len() == 0 {
            return Err(MarketError::ValidationFailed);
        }
        let ghost before = self@;
        proof {
            lemma_list_each_by_checks(before, token_id, edition_ids@, price, caller@);
        }
        let mut i: usize = 0;
        while i < edition_ids.len()
            invariant
                self.wf(),
                self@ == before,
                *self == *old(self),
                i <= edition_ids.len(),
                forall|j: int|
                    0 <= j < i ==> before.owner_obstacle(
                        token_id,
                        #[trigger] edition_ids@[j],
                        caller@,
                    ) is None,
            decreases edition_ids.len() - i,
        {
            match self.owned_slot(token_id, edition_ids[i], caller) {
                Err(e) => {
                    proof {
                        lemma_list_each_by_checks(before, token_id, edition_ids@, price, caller@);
                        assert(before.owner_obstacle(token_id, edition_ids@[i as int], caller@)
                            == Some(e));
                    }
                    return Err(e);
                },
                Ok(_) => {},
            }
            i += 1;
        }
        let mut k: usize = 0;
        while k < edition_ids.len()
            invariant
                self.wf(),
                before.inv(),
                k <= edition_ids.len(),
                before.list_each(token_id, edition_ids@.take(k as int), price, caller@) == Ok::<
                    MarketState,
                    MarketError,
                >(self@),
                forall|j: int|
                    0 <= j < edition_ids.len() ==> before.owner_obstacle(
                        token_id,
                        #[trigger] edition_ids@[j],
                        caller@,
                    ) is None,
            decreases edition_ids.len() - k,
        {
            proof {
                lemma_list_each_follows(
                    before,
                    token_id,
                    edition_ids@.take(k as int),
                    price,
                    caller@,
                );
                if before.has_edition(token_id, edition_ids@[k as int]) {
                    lemma_located_edition(before, token_id, edition_ids@[k as int]);
                }
                assert(self@.owner_obstacle(token_id, edition_ids@[k as int], caller@)
                    == before.owner_obstacle(token_id, edition_ids@[k as int], caller@));
                assert(edition_ids@.take(k + 1).drop_last() =~= edition_ids@.take(k as int));
            }
            let listed = self.list_price(token_id, edition_ids[k], price, caller);
            assert(listed is Ok);
            k += 1;
        }
        proof {
            assert(edition_ids@.take(edition_ids.len() as int) =~= edition_ids@);
        }
        Ok(())
    }

    /// The owner of several editions of a token offers them for sale at
    /// the price that the decimal string `price_as_yoctonear` denotes.
    pub fn batch_set_price(
        &mut self,
        token_id: TokenId,
        edition_ids: Vec<EditionNumber>,
        price_as_yoctonear: String,
        caller: &AccountId,
    ) -> (result: Result<(), MarketError>)
        requires
            old(self).wf(),
        ensures
            final(self).wf(),
            carried_out(
                old(self)@,
                final(self)@,
                match parsed_amount(price_as_yoctonear@) {
                    None => Err(MarketError::ValidationFailed),
                    Some(price) => old(self)@.list_batch(token_id, edition_ids@, price, caller@),
                },
                result,
            ),
    {
        match parse_amount(&price_as_yoctonear) {
            None => Err(MarketError::ValidationFailed),
            Some(price) => self.batch_list_price(token_id, &edition_ids, price, caller),
        }
    }

    /// The price at which an edition is listed.
    pub fn get_price(&self, token_id: TokenId, edition_id: EditionNumber) -> (result: Result<
        TokenPrice,
        MarketError,
    >)
        requires
            self.wf(),
        ensures
            result == self@.price_of(token_id, edition_id),
    {
        match self.slot_of(token_id, edition_id) {
            None => Err(MarketError::NotFound),
            Some(slot) => {
                let index = slot as u64 + 1;
                match self.marketplace.get(&index) {
                    None => Err(MarketError::NotFound),
                    Some(price) => Ok(*price),
                }
            },
        }
    }

    /// The owner of an edition takes it off the market. An edition that was
    /// not listed stays as it is.
    pub fn cancel_sale(&mut self, token_id: TokenId, edition_id: u64, caller: &AccountId) -> (result:
        Result<(), MarketError>)
        requires
            old(self).wf(),
        ensures
            final(self).wf(),
            carried_out(
                old(self)@,
                final(self)@,
                old(self)@.cancel_sale(token_id, edition_id, caller@),
                result,
            ),
    {
        proof {
            lemma_cancel_sale_follows(self@, token_id, edition_id, caller@);
        }
        let slot = match self.held_slot(token_id, edition_id, caller) {
            Ok(slot) => slot,
            Err(e) => {
                return Err(e);
            },
        };
        let listed = match self.edition_states[slot] {
            EditionState::LISTED => true,
            _ => false,
        };
        if listed {
            let index = slot as u64 + 1;
            self.marketplace.remove(&index);
            self.edition_states[slot] = EditionState::AVAILABLE;
            proof {
                assert(self@ =~~= old(self)@.cancel_sale(token_id, edition_id, caller@)->Ok_0);
            }
        }
        Ok(())
    }

    /// The payments that follow the sale of an edition of `token_id` by
    /// `seller` for `gross_amount`.
    fn payments_for_sale(&self, token_id: TokenId, seller: &AccountId, gross_amount: Balance) -> (list:
        Vec<Payment>)
        requires
            self.wf(),
            token_id < self@.tokens.len(),
            self.trade_fee > 0,
        ensures
            payment_views(list@) == self@.sale_payments(token_id, seller@, gross_amount),
    {
        proof {
            assert(self@.tokens.len() == self.tokens.len());
            assert(self@.metadata.len() == self.metadata.len());
            assert(self@.tokens[token_id as int].metadata == token_id);
        }
        let token = self.tokens[token_id as usize];
        let md = &self.metadata[token.metadata as usize];
        let split = settle(gross_amount, seller, &md.creator, md.royalty, self.trade_fee);
        payments(split, &self.fee_receiver, &md.creator, seller)
    }

    /// `caller` buys a listed edition with `attached_deposit`. The edition
    /// passes to `caller`; the payments that are to follow are returned in
    /// the order in which they are to be made.
    pub fn buy(
        &mut self,
        token_id: TokenId,
        edition_id: u64,
        caller: &AccountId,
        attached_deposit: Balance,
    ) -> (result: Result<Vec<Payment>, MarketError>)
        requires
            old(self).wf(),
        ensures
            final(self).wf(),
            carried_out(
                old(self)@,
                final(self)@,
                old(self)@.buy(token_id, edition_id, caller@, attached_deposit),
                result,
            ),
            result matches Ok(list) ==> payment_views(list@) == old(self)@.buy_payments(
                token_id,
                edition_id,
                attached_deposit,
            ),
    {
        proof {
            lemma_buy_follows(self@, token_id, edition_id, caller@, attached_deposit);
        }
        let slot = match self.slot_of(token_id, edition_id) {
            None => {
                return Err(MarketError::NotFound);
            },
            Some(slot) => slot,
        };
        let edition_index = slot as u64 + 1;
        let listed = match self.marketplace.get(&edition_index) {
            None => {
                return Err(MarketError::NotFound);
            },
            Some(price) => *price,
        };
        if attached_deposit < listed {
            return Err(MarketError::InsufficientDeposit);
        }
        let old_owner = self.editions[slot].edition_owner.clone();
        if *caller == old_owner {
            return Err(MarketError::SelfDealing);
        }
        if self.paused {
            return Err(MarketError::Paused);
        }
        if self.trade_fee == 0 {
            return Err(MarketError::ValidationFailed);
        }
        let list = self.payments_for_sale(token_id, &old_owner, attached_deposit);
        let moved = self.transfer_edition(
            edition_index,
            &old_owner,
            caller.clone(),
            edition_id,
            TransferMode::Sale,
            caller,
        );
        assert(moved is Ok);
        Ok(list)
    }

    /// `caller` bids `attached_deposit` on an edition. Returns the index
    /// of the bid in the edition's list of bids.
    pub fn offer(
        &mut self,
        token_id: TokenId,
        edition_id: EditionNumber,
        caller: &AccountId,
        attached_deposit: Balance,
        timestamp: u64,
    ) -> (result: Result<u64, MarketError>)
        requires
            old(self).wf(),
        ensures
            final(self).wf(),
            carried_out(
                old(self)@,
                final(self)@,
                old(self)@.place_offer(token_id, edition_id, caller@, attached_deposit, timestamp),
                result,
            ),
            result matches Ok(index) ==> index == old(self)@.bids[old(self)@.locate(
                token_id,
                edition_id,
            )->0].len(),
    {
        proof {
            lemma_place_offer_follows(
                self@,
                token_id,
                edition_id,
                caller@,
                attached_deposit,
                timestamp,
            );
        }
        if self.paused {
            return Err(MarketError::Paused);
        }
        let slot = match self.slot_of(token_id, edition_id) {
            None => {
                return Err(MarketError::NotFound);
            },
            Some(slot) => slot,
        };
        if attached_deposit <= self.mint_storage_fee {
            return Err(MarketError::InsufficientDeposit);
        }
        if self.editions[slot].edition_owner == *caller {
            return Err(MarketError::SelfDealing);
        }
        if is_frozen(self.edition_states[slot]) {
            return Err(MarketError::InvalidState);
        }
        let bid = Bid {
            bidder: caller.clone(),
            amount: attached_deposit,
            date: decimal_string(timestamp),
            executed: false,
        };
        let index = self.offers[slot].len() as u64;
        proof {
            assert(bid_views(self.offers[slot as int]@.push(bid)) =~= bid_views(
                self.offers[slot as int]@,
            ).push(bid@));
        }
        self.offers[slot].push(bid);
        proof {
            assert(self@ =~~= old(self)@.place_offer(
                token_id,
                edition_id,
                caller@,
                attached_deposit,
                timestamp,
            )->Ok_0);
        }
        Ok(index)
    }

    /// Finds an open bid on an edition.
    fn open_bid_at(&self, token_id: TokenId, edition_id: EditionNumber, idx: u64) -> (found: Result<
        (usize, usize),
        MarketError,
    >)
        requires
            self.wf(),
        ensures
            match found {
                Ok((slot, at)) => {
                    &&& self@.open_bid(token_id, edition_id, idx) is Ok
                    &&& self@.locate(token_id, edition_id) == Some(slot as int)
                    &&& slot < self.editions.len()
                    &&& slot < self.offers.len()
                    &&& at == idx
                    &&& at < self.offers[slot as int].len()
                },
                Err(e) => self@.open_bid(token_id, edition_id, idx) == Err::<BidView, MarketError>(
                    e,
                ),
            },
    {
        let slot = match self.slot_of(token_id, edition_id) {
            None => {
                return Err(MarketError::NotFound);
            },
            Some(slot) => slot,
        };
        proof {
            assert(self@.bids.len() == self.offers.len());
            assert(self@.bids[slot as int].len() == self.offers[slot as int].len());
        }
        if idx >= self.offers[slot].len() as u64 {
            return Err(MarketError::NotFound);
        }
        let at = idx as usize;
        proof {
            assert(self@.bids[slot as int][at as int] == self.offers[slot as int][at as int]@);
        }
        if self.offers[slot][at].executed {
            return Err(MarketError::InvalidState);
        }
        Ok((slot, at))
    }

    /// Settles the bid at position `at` of the edition at `slot`.
    fn close_bid(&mut self, slot: usize, at: usize)
        requires
            old(self).wf(),
            slot < old(self).offers.len(),
            at < old(self).offers[slot as int].len(),
        ensures
            final(self).wf(),
            final(self)@ == old(self)@.with_closed_bid(slot as int, at as int),
    {
        proof {
            lemma_closed_bid_follows(self@, slot as int, at as int);
            assert(self@.bids.len() == self.offers.len());
        }
        self.offers[slot][at].executed = true;
        self.offers[slot][at].bidder = String::new();
        self.offers[slot][at].amount = 0;
        proof {
            assert(bid_views(self.offers[slot as int]@) =~= bid_views(
                old(self).offers[slot as int]@,
            ).update(at as int, old(self).offers[slot as int][at as int]@.closed_out()));
            assert(self@ =~~= old(self)@.with_closed_bid(slot as int, at as int));
        }
    }

    /// The owner of an edition accepts the bid at `idx`. The edition passes
    /// to the bidder and the bid is settled; the payments that are to
    /// follow are returned in the order in which they are to be made.
    pub fn accept_offer(
        &mut self,
        token_id: TokenId,
        edition_id: EditionNumber,
        idx: u64,
        caller: &AccountId,
    ) -> (result: Result<Vec<Payment>, MarketError>)
        requires
            old(self).wf(),
        ensures
            final(self).wf(),
            carried_out(
                old(self)@,
                final(self)@,
                old(self)@.accept_offer(token_id, edition_id, idx, caller@),
                result,
            ),
            result matches Ok(list) ==> payment_views(list@) == old(self)@.accept_payments(
                token_id,
                edition_id,
                idx,
                caller@,
            ),
    {
        proof {
            lemma_settled_offer_follows(self@, token_id, edition_id, idx, caller@);
        }
        let (slot, at) = match self.open_bid_at(token_id, edition_id, idx) {
            Err(e) => {
                return Err(e);
            },
            Ok(found) => found,
        };
        if !(self.editions[slot].edition_owner == *caller) {
            return Err(MarketError::Unauthorized);
        }
        if self.paused {
            return Err(MarketError::Paused);
        }
        if is_frozen(self.edition_states[slot]) {
            return Err(MarketError::InvalidState);
        }
        if self.trade_fee == 0 {
            return Err(MarketError::ValidationFailed);
        }
        proof {
            assert(self@.bids[slot as int][at as int] == self.offers[slot as int][at as int]@);
        }
        let bidder = self.offers[slot][at].bidder.clone();
        let amount = self.offers[slot][at].amount;
        let list = self.payments_for_sale(token_id, caller, amount);
        let moved = self.transfer_edition(
            slot as u64 + 1,
            caller,
            bidder,
            edition_id,
            TransferMode::Sale,
            caller,
        );
        assert(moved is Ok);
        self.close_bid(slot, at);
        Ok(list)
    }

    /// The bidder cancels the bid at `idx` on an edition. The bid is
    /// settled; what is to be paid back to the bidder is returned.
    pub fn cancel_offer(
        &mut self,
        token_id: TokenId,
        edition_id: EditionNumber,
        idx: u64,
        caller: &AccountId,
    ) -> (result: Result<Balance, MarketError>)
        requires
            old(self).wf(),
        ensures
            final(self).wf(),
            carried_out(
                old(self)@,
                final(self)@,
                old(self)@.cancel_offer(token_id, edition_id, idx, caller@),
                result,
            ),
            result matches Ok(refund) ==> refund == old(self)@.cancel_refund(
                token_id,
                edition_id,
                idx,
            ),
    {
        proof {
            lemma_settled_offer_follows(self@, token_id, edition_id, idx, caller@);
        }
        let (slot, at) = match self.open_bid_at(token_id, edition_id, idx) {
            Err(e) => {
                return Err(e);
            },
            Ok(found) => found,
        };
        proof {
            assert(self@.bids[slot as int][at as int] == self.offers[slot as int][at as int]@);
        }
        if !(self.offers[slot][at].bidder == *caller) {
            return Err(MarketError::Unauthorized);
        }
        let amount = self.offers[slot][at].amount;
        let refund = if amount > self.edition_storage_fee {
            amount - self.edition_storage_fee
        } else {
            0
        };
        self.close_bid(slot, at);
        Ok(refund)
    }
}

impl NonFungibleToken {
    /// The owner of the ledger whitelists `minter`.
    pub fn add_minter(&mut self, minter: AccountId, caller: &AccountId) -> (result: Result<
        (),
        MarketError,
    >)
        requires
            old(self).wf(),
        ensures
            final(self).wf(),
            carried_out(
                old(self)@,
                final(self)@,
                old(self)@.add_minter(minter@, caller@),
                result,
            ),
    {
        proof {
            lemma_owner_actions_follow(self@, caller@, minter@, false, 0, 0, Seq::empty(), 0);
        }
        if !(*caller == self.owner_id) {
            return Err(MarketError::Unauthorized);
        }
        if !holds_account(&self.minters, &minter) {
            proof {
                lemma_names_follow(self.minters@, minter, 0);
            }
            self.minters.push(minter);
            proof {
                assert(self@ =~~= old(self)@.add_minter(minter@, caller@)->Ok_0);
            }
        }
        Ok(())
    }

    /// The owner of the ledger takes `minter` off the whitelist.
    pub fn remove_minter(&mut self, minter: AccountId, caller: &AccountId) -> (result: Result<
        (),
        MarketError,
    >)
        requires
            old(self).wf(),
        ensures
            final(self).wf(),
            carried_out(
                old(self)@,
                final(self)@,
                old(self)@.remove_minter(minter@, caller@),
                result,
            ),
            result is Ok ==> !final(self)@.minters.contains(minter@),
    {
        proof {
            lemma_owner_actions_follow(self@, caller@, minter@, false, 0, 0, Seq::empty(), 0);
        }
        if !(*caller == self.owner_id) {
            return Err(MarketError::Unauthorized);
        }
        match find_account(&self.minters, &minter) {
            None => Err(MarketError::NotFound),
            Some(at) => {
                proof {
                    lemma_first_index_is_unique(names(self.minters@), minter@, at as int);
                    lemma_names_follow(self.minters@, minter, at as int);
                }
                self.minters.remove(at);
                proof {
                    assert(self@ =~~= old(self)@.remove_minter(minter@, caller@)->Ok_0);
                }
                Ok(())
            },
        }
    }

    /// The owner of the ledger creates the genesis collection, once. This
    /// also ends the pause in which a new ledger starts.
    pub fn generate_genesis_collection(
        &mut self,
        thumbnail: String,
        caller: &AccountId,
        timestamp: u64,
    ) -> (result: Result<(), MarketError>)
        requires
            old(self).wf(),
        ensures
            final(self).wf(),
            carried_out(
                old(self)@,
                final(self)@,
                old(self)@.generate_genesis_collection(thumbnail@, caller@, timestamp),
                result,
            ),
    {
        proof {
            lemma_owner_actions_follow(
                self@,
                caller@,
                Seq::empty(),
                false,
                0,
                0,
                thumbnail@,
                timestamp,
            );
        }
        if !(*caller == self.owner_id) {
            return Err(MarketError::Unauthorized);
        }
        if self.genesis.is_some() {
            return Err(MarketError::AlreadyExists);
        }
        let collection = Collection {
            name: String::from_str("Nearfolio"),
            date: decimal_string(timestamp),
            thumbnail,
            creator: String::from_str("nearfolio.near"),
            minters: Vec::new(),
            description: String::from_str("Nearfolio default collection."),
        };
        proof {
            assert(names(collection.minters@) =~= Seq::<AccountName>::empty());
            assert(collection@ == genesis_collection(thumbnail@, timestamp));
        }
        self.genesis = Some(collection);
        self.paused = false;
        proof {
            assert(self@ =~~= old(self)@.generate_genesis_collection(
                thumbnail@,
                caller@,
                timestamp,
            )->Ok_0);
        }
        Ok(())
    }

    /// The owner of the ledger switches maintenance on.
    pub fn pause(&mut self, caller: &AccountId) -> (result: Result<(), MarketError>)
        requires
            old(self).wf(),
        ensures
            final(self).wf(),
            carried_out(old(self)@, final(self)@, old(self)@.set_paused(true, caller@), result),
    {
        proof {
            lemma_owner_actions_follow(self@, caller@, Seq::empty(), true, 0, 0, Seq::empty(), 0);
        }
        if !(*caller == self.owner_id) {
            return Err(MarketError::Unauthorized);
        }
        self.paused = true;
        proof {
            assert(self@ =~~= old(self)@.set_paused(true, caller@)->Ok_0);
        }
        Ok(())
    }

    /// The owner of the ledger switches maintenance off.
    pub fn unpause(&mut self, caller: &AccountId) -> (result: Result<(), MarketError>)
        requires
            old(self).wf(),
        ensures
            final(self).wf(),
            carried_out(old(self)@, final(self)@, old(self)@.set_paused(false, caller@), result),
    {
        proof {
            lemma_owner_actions_follow(
                self@,
                caller@,
                Seq::empty(),
                false,
                0,
                0,
                Seq::empty(),
                0,
            );
        }
        if !(*caller == self.owner_id) {
            return Err(MarketError::Unauthorized);
        }
        self.paused = false;
        proof {
            assert(self@ =~~= old(self)@.set_paused(false, caller@)->Ok_0);
        }
        Ok(())
    }

    /// The owner of the ledger sets the fee for minting a token to the
    /// amount that the decimal string `fee` denotes.
    pub fn set_mint_fee(&mut self, fee: String, caller: &AccountId) -> (result: Result<
        (),
        MarketError,
    >)
        requires
            old(self).wf(),
        ensures
            final(self).wf(),
            carried_out(
                old(self)@,
                final(self)@,
                if caller@ != old(self)@.owner_id {
                    Err(MarketError::Unauthorized)
                } else {
                    match parsed_amount(fee@) {
                        None => Err(MarketError::ValidationFailed),
                        Some(amount) => old(self)@.set_mint_fee(amount, caller@),
                    }
                },
                result,
            ),
    {
        if !(*caller == self.owner_id) {
            return Err(MarketError::Unauthorized);
        }
        match parse_amount(&fee) {
            None => Err(MarketError::ValidationFailed),
            Some(amount) => {
                proof {
                    lemma_owner_actions_follow(
                        self@,
                        caller@,
                        Seq::empty(),
                        false,
                        amount,
                        0,
                        Seq::empty(),
                        0,
                    );
                }
                self.mint_storage_fee = amount;
                proof {
                    assert(self@ =~~= old(self)@.set_mint_fee(amount, caller@)->Ok_0);
                }
                Ok(())
            },
        }
    }

    /// The owner of the ledger sets the fee per minted edition to the
    /// amount that the decimal string `fee` denotes.
    pub fn set_edition_fee(&mut self, fee: String, caller: &AccountId) -> (result: Result<
        (),
        MarketError,
    >)
        requires
            old(self).wf(),
        ensures
            final(self).wf(),
            carried_out(
                old(self)@,
                final(self)@,
                if caller@ != old(self)@.owner_id {
                    Err(MarketError::Unauthorized)
                } else {
                    match parsed_amount(fee@) {
                        None => Err(MarketError::ValidationFailed),
                        Some(amount) => old(self)@.set_edition_fee(amount, caller@),
                    }
                },
                result,
            ),
    {
        if !(*caller == self.owner_id) {
            return Err(MarketError::Unauthorized);
        }
        match parse_amount(&fee) {
            None => Err(MarketError::ValidationFailed),
            Some(amount) => {
                proof {
                    lemma_owner_actions_follow(
                        self@,
                        caller@,
                        Seq::empty(),
                        false,
                        amount,
                        0,
                        Seq::empty(),
                        0,
                    );
                }
                self.edition_storage_fee = amount;
                proof {
                    assert(self@ =~~= old(self)@.set_edition_fee(amount, caller@)->Ok_0);
                }
                Ok(())
            },
        }
    }

    /// The owner of the ledger sets the fee for creating a collection to
    /// the amount that the decimal string `fee` denotes.
    pub fn set_collection_fee(&mut self, fee: String, caller: &AccountId) -> (result: Result<
        (),
        MarketError,
    >)
        requires
            old(self).wf(),
        ensures
            final(self).wf(),
            carried_out(
                old(self)@,
                final(self)@,
                if caller@ != old(self)@.owner_id {
                    Err(MarketError::Unauthorized)
                } else {
                    match parsed_amount(fee@) {
                        None => Err(MarketError::ValidationFailed),
                        Some(amount) => old(self)@.set_collection_fee(amount, caller@),
                    }
                },
                result,
            ),
    {
        if !(*caller == self.owner_id) {
            return Err(MarketError::Unauthorized);
        }
        match parse_amount(&fee) {
            None => Err(MarketError::ValidationFailed),
            Some(amount) => {
                proof {
                    lemma_owner_actions_follow(
                        self@,
                        caller@,
                        Seq::empty(),
                        false,
                        amount,
                        0,
                        Seq::empty(),
                        0,
                    );
                }
                self.create_collection_fee = amount;
                proof {
                    assert(self@ =~~= old(self)@.set_collection_fee(amount, caller@)->Ok_0);
                }
                Ok(())
            },
        }
    }

    /// The owner of the ledger sets the ceiling on the editions of one
    /// token.
    pub fn set_max_edition(&mut self, value: u8, caller: &AccountId) -> (result: Result<
        (),
        MarketError,
    >)
        requires
            old(self).wf(),
        ensures
            final(self).wf(),
            carried_out(
                old(self)@,
                final(self)@,
                old(self)@.set_max_edition(value, caller@),
                result,
            ),
    {
        proof {
            lemma_owner_actions_follow(
                self@,
                caller@,
                Seq::empty(),
                false,
                0,
                value,
                Seq::empty(),
                0,
            );
        }
        if !(*caller == self.owner_id) {
            return Err(MarketError::Unauthorized);
        }
        self.max_editions = value;
        proof {
            assert(self@ =~~= old(self)@.set_max_edition(value, caller@)->Ok_0);
        }
        Ok(())
    }

    /// The owner of the ledger sets the divisor that gives the platform's
    /// share of a sale.
    pub fn set_trade_fee(&mut self, fee: u128, caller: &AccountId) -> (result: Result<
        (),
        MarketError,
    >)
        requires
            old(self).wf(),
        ensures
            final(self).wf(),
            carried_out(
                old(self)@,
                final(self)@,
                old(self)@.set_trade_fee(fee, caller@),
                result,
            ),
    {
        proof {
            lemma_owner_actions_follow(
                self@,
                caller@,
                Seq::empty(),
                false,
                fee,
                0,
                Seq::empty(),
                0,
            );
        }
        if !(*caller == self.owner_id) {
            return Err(MarketError::Unauthorized);
        }
        self.trade_fee = fee;
        proof {
            assert(self@ =~~= old(self)@.set_trade_fee(fee, caller@)->Ok_0);
        }
        Ok(())
    }

    /// A key that names an edition in logs and indexes: the token id and
    /// the edition number in decimal, with `::` between them.
    pub fn gen_token_x_edition(&self, token_id: TokenId, edition_id: EditionNumber) -> (key: String)
        ensures
            key@ == decimal_digits(token_id as nat) + "::"@ + decimal_digits(edition_id as nat),
    {
        let mut key = decimal_string(token_id);
        key.append("::");
        key.append(decimal_string(edition_id).as_str());
        key
    }

    /// The accounts that hold an allowance on an edition, in the order in
    /// which they were granted.
    pub fn get_allowances(&self, token_id: TokenId, edition_id: EditionNumber) -> (result: Result<
        Vec<AccountId>,
        MarketError,
    >)
        requires
            self.wf(),
        ensures
            match result {
                Ok(list) => self@.locate(token_id, edition_id) is Some && names(list@)
                    == self@.allowances[self@.locate(token_id, edition_id)->0],
                Err(e) => self@.locate(token_id, edition_id) is None && e == MarketError::NotFound,
            },
    {
        match self.slot_of(token_id, edition_id) {
            None => Err(MarketError::NotFound),
            Some(slot) => Ok(clone_names(&self.edition_allowances[slot])),
        }
    }

    /// The bids on an edition, oldest first.
    pub fn get_offers(&self, token_id: TokenId, edition_id: EditionNumber) -> (result: Result<
        Vec<Bid>,
        MarketError,
    >)
        requires
            self.wf(),
        ensures
            match result {
                Ok(list) => self@.locate(token_id, edition_id) is Some && bid_views(list@)
                    == self@.bids[self@.locate(token_id, edition_id)->0],
                Err(e) => self@.locate(token_id, edition_id) is None && e == MarketError::NotFound,
            },
    {
        match self.slot_of(token_id, edition_id) {
            None => Err(MarketError::NotFound),
            Some(slot) => {
                proof {
                    assert(self@.bids.len() == self.offers.len());
                }
                Ok(clone_bids(&self.offers[slot]))
            },
        }
    }

    /// The token with the given id.
    pub fn get_token(&self, token_id: TokenId) -> (result: Result<Token, MarketError>)
        ensures
            match result {
                Ok(token) => token_id < self@.current_supply() && token
                    == self@.tokens[token_id as int],
                Err(e) => token_id >= self@.current_supply() && e == MarketError::NotFound,
            },
    {
        proof {
            assert(self@.tokens.len() == self.tokens.len());
        }
        if token_id < self.tokens.len() as u64 {
            Ok(self.tokens[token_id as usize])
        } else {
            Err(MarketError::NotFound)
        }
    }

    /// An edition of a token.
    pub fn get_edition(&self, token_id: TokenId, edition_id: EditionNumber) -> (result: Result<
        Edition,
        MarketError,
    >)
        requires
            self.wf(),
        ensures
            match result {
                Ok(edition) => self@.locate(token_id, edition_id) is Some && edition@
                    == self@.editions[self@.locate(token_id, edition_id)->0],
                Err(e) => self@.locate(token_id, edition_id) is None && e == MarketError::NotFound,
            },
    {
        match self.slot_of(token_id, edition_id) {
            None => Err(MarketError::NotFound),
            Some(slot) => Ok(self.editions[slot].clone()),
        }
    }

    /// The collection with the given id.
    pub fn get_collection(&self, collection_id: CollectionId) -> (result: Result<
        Collection,
        MarketError,
    >)
        ensures
            match result {
                Ok(collection) => self@.collection(collection_id) == Some(collection@),
                Err(e) => self@.collection(collection_id) is None && e == MarketError::NotFound,
            },
    {
        match self.collection_at(collection_id) {
            None => Err(MarketError::NotFound),
            Some(collection) => Ok(collection.clone()),
        }
    }

    /// The metadata of a token.
    pub fn get_metadata(&self, token_id: TokenId) -> (result: Result<Metadata, MarketError>)
        requires
            self.wf(),
        ensures
            match result {
                Ok(metadata) => token_id < self@.current_supply() && metadata@
                    == self@.metadata[token_id as int],
                Err(e) => token_id >= self@.current_supply() && e == MarketError::NotFound,
            },
    {
        proof {
            assert(self@.tokens.len() == self.tokens.len());
            assert(self@.metadata.len() == self.metadata.len());
        }
        if token_id < self.tokens.len() as u64 {
            Ok(self.metadata[token_id as usize].clone())
        } else {
            Err(MarketError::NotFound)
        }
    }

    /// The owner of an edition. A burned edition keeps its last owner.
    pub fn owner_of(&self, token_id: TokenId, edition_id: EditionNumber) -> (result: Result<
        AccountId,
        MarketError,
    >)
        requires
            self.wf(),
        ensures
            match result {
                Ok(owner) => self@.locate(token_id, edition_id) is Some && owner@
                    == self@.editions[self@.locate(token_id, edition_id)->0].edition_owner,
                Err(e) => self@.locate(token_id, edition_id) is None && e == MarketError::NotFound,
            },
    {
        match self.slot_of(token_id, edition_id) {
            None => Err(MarketError::NotFound),
            Some(slot) => Ok(self.editions[slot].edition_owner.clone()),
        }
    }

    /// The state of an edition.
    pub fn state_of(&self, token_id: TokenId, edition_id: EditionNumber) -> (result: Result<
        EditionState,
        MarketError,
    >)
        requires
            self.wf(),
        ensures
            match result {
                Ok(state) => self@.locate(token_id, edition_id) is Some && state
                    == self@.states[self@.locate(token_id, edition_id)->0],
                Err(e) => self@.locate(token_id, edition_id) is None && e == MarketError::NotFound,
            },
    {
        match self.slot_of(token_id, edition_id) {
            None => Err(MarketError::NotFound),
            Some(slot) => Ok(self.edition_states[slot]),
        }
    }

    /// The edition with the given global index.
    pub fn edition_by_index(&self, index: u64) -> (result: Result<Edition, MarketError>)
        ensures
            match result {
                Ok(edition) => 1 <= index <= self@.total_editions() && edition@
                    == self@.editions[index - 1],
                Err(e) => !(1 <= index <= self@.total_editions()) && e == MarketError::NotFound,
            },
    {
        proof {
            assert(self@.editions.len() == self.editions.len());
        }
        if 1 <= index && index <= self.editions.len() as u64 {
            Ok(self.editions[(index - 1) as usize].clone())
        } else {
            Err(MarketError::NotFound)
        }
    }

    /// The accounts to which `account_id` has granted escrow, in the order
    /// of the grants.
    pub fn get_escrows(&self, account_id: AccountId) -> (list: Vec<AccountId>)
        requires
            self.wf(),
        ensures
            names(list@) == self@.delegates_of(account_id@),
    {
        match self.grants_at(&account_id) {
            Some(i) => clone_names(&self.account_gives_access[i].delegates),
            None => {
                let list: Vec<AccountId> = Vec::new();
                assert(names(list@) =~= Seq::<AccountName>::empty());
                list
            },
        }
    }

    /// Whether maintenance is on.
    pub fn is_paused(&self) -> (paused: bool)
        ensures
            paused == self@.paused,
    {
        self.paused
    }

    /// The owner of the ledger.
    pub fn owner(&self) -> (owner: AccountId)
        ensures
            owner@ == self@.owner_id,
    {
        self.owner_id.clone()
    }

    /// The account that receives the platform fee.
    pub fn fee_receiver(&self) -> (receiver: AccountId)
        ensures
            receiver@ == self@.fee_receiver,
    {
        self.fee_receiver.clone()
    }

    /// Whether `account` is on the minter whitelist.
    pub fn is_minter(&self, account: AccountId) -> (listed: bool)
        ensures
            listed == self@.minters.contains(account@),
    {
        holds_account(&self.minters, &account)
    }

    /// The minter whitelist, in the order in which the minters were added.
    pub fn all_minters(&self) -> (list: Vec<AccountId>)
        ensures
            names(list@) == self@.minters,
    {
        clone_names(&self.minters)
    }

    /// The fee for minting a token, before the fee per edition.
    pub fn mint_fee(&self) -> (fee: Balance)
        ensures
            fee == self@.mint_storage_fee,
    {
        self.mint_storage_fee
    }

    /// The fee per minted edition.
    pub fn edition_fee(&self) -> (fee: Balance)
        ensures
            fee == self@.edition_storage_fee,
    {
        self.edition_storage_fee
    }

    /// The fee for creating a collection.
    pub fn collection_fee(&self) -> (fee: Balance)
        ensures
            fee == self@.create_collection_fee,
    {
        self.create_collection_fee
    }

    /// The divisor that gives the platform's share of a sale.
    pub fn trade_fee(&self) -> (fee: Balance)
        ensures
            fee == self@.trade_fee,
    {
        self.trade_fee
    }

    /// The ceiling on the editions of one token.
    pub fn max_editions(&self) -> (ceiling: u8)
        ensures
            ceiling == self@.max_editions,
    {
        self.max_editions
    }

    /// How many tokens have been minted.
    pub fn current_supply(&self) -> (count: u64)
        ensures
            count == self@.current_supply(),
    {
        proof {
            assert(self@.tokens.len() == self.tokens.len());
        }
        self.tokens.len() as u64
    }

    /// How many editions have been created, burned ones included.
    pub fn total_editions(&self) -> (count: u64)
        ensures
            count == self@.total_editions(),
    {
        proof {
            assert(self@.editions.len() == self.editions.len());
        }
        self.editions.len() as u64
    }

    /// How many collections have been created besides the genesis
    /// collection.
    pub fn total_collections(&self) -> (count: u64)
        ensures
            count == self@.total_collections(),
    {
        proof {
            assert(self@.collections.len() == self.collections.len());
        }
        self.collections.len() as u64
    }

    /// The states that an edition can be in.
    pub fn get_states(&self) -> (states: Vec<EditionState>)
        ensures
            states@ == seq![
                EditionState::AVAILABLE,
                EditionState::LISTED,
                EditionState::LOCKED,
                EditionState::BURNED,
            ],
    {
        let mut states: Vec<EditionState> = Vec::new();
        states.push(EditionState::AVAILABLE);
        states.push(EditionState::LISTED);
        states.push(EditionState::LOCKED);
        states.push(EditionState::BURNED);
        assert(states@ =~= seq![
            EditionState::AVAILABLE,
            EditionState::LISTED,
            EditionState::LOCKED,
            EditionState::BURNED,
        ]);
        states
    }
}

/// The baseline of operations of a non-fungible token: escrow grants
/// between accounts, allowances on single editions, and transfers.
pub trait NEP4 {
    /// The ledger that this value stands for.
    spec fn ledger(&self) -> MarketState;

    /// Whether this value is fit for the operations.
    spec fn fit(&self) -> bool;

    /// `caller` lets `escrow_account_id` transfer any edition that `caller`
    /// owns.
    fn grant_access(&mut self, escrow_account_id: AccountId, caller: &AccountId) -> (result: Result<
        (),
        MarketError,
    >)
        requires
            old(self).fit(),
        ensures
            final(self).fit(),
            carried_out(
                old(self).ledger(),
                final(self).ledger(),
                old(self).ledger().grant_access(caller@, escrow_account_id@),
                result,
            ),
    ;

    /// `caller` takes the escrow grant back from `escrow_account_id`.
    fn revoke_access(&mut self, escrow_account_id: AccountId, caller: &AccountId)
        requires
            old(self).fit(),
        ensures
            final(self).fit(),
            final(self).ledger() == old(self).ledger().revoke_access(caller@, escrow_account_id@),
            !final(self).ledger().delegates_of(caller@).contains(escrow_account_id@),
    ;

    /// `caller` moves an edition of `from` to `to`, by escrow or allowance.
    fn transfer_from(
        &mut self,
        from: AccountId,
        to: AccountId,
        token_id: u64,
        edition_number: u64,
        caller: &AccountId,
    ) -> (result: Result<(), MarketError>)
        requires
            old(self).fit(),
        ensures
            final(self).fit(),
            carried_out(
                old(self).ledger(),
                final(self).ledger(),
                old(self).ledger().transfer_from(from@, to@, token_id, edition_number, caller@),
                result,
            ),
    ;

    /// `caller` gives an edition of their own to `to`.
    fn transfer(
        &mut self,
        to: AccountId,
        token_id: TokenId,
        edition_number: EditionNumber,
        caller: &AccountId,
    ) -> (result: Result<(), MarketError>)
        requires
            old(self).fit(),
        ensures
            final(self).fit(),
            carried_out(
                old(self).ledger(),
                final(self).ledger(),
                old(self).ledger().transfer(to@, token_id, edition_number, caller@),
                result,
            ),
    ;

    /// Whether `account_id` has granted escrow to `escrow_id`.
    fn check_access(&self, account_id: AccountId, escrow_id: AccountId) -> (granted: bool)
        requires
            self.fit(),
        ensures
            granted == self.ledger().delegates_of(account_id@).contains(escrow_id@),
    ;

    /// The owner of an edition lets `account` transfer that edition,
    /// whatever the state of the edition, unless it is burned.
    fn grant_edition_allowance(
        &mut self,
        token_id: TokenId,
        edition_id: u64,
        account: AccountId,
        caller: &AccountId,
    ) -> (result: Result<(), MarketError>)
        requires
            old(self).fit(),
        ensures
            final(self).fit(),
            carried_out(
                old(self).ledger(),
                final(self).ledger(),
                old(self).ledger().grant_edition_allowance(
                    token_id,
                    edition_id,
                    account@,
                    caller@,
                ),
                result,
            ),
    ;

    /// The owner of an edition takes the allowance of `account` back,
    /// whatever the state of the edition, unless it is burned.
    fn remove_edition_allowance(
        &mut self,
        token_id: TokenId,
        edition_id: u64,
        account: AccountId,
        caller: &AccountId,
    ) -> (result: Result<(), MarketError>)
        requires
            old(self).fit(),
        ensures
            final(self).fit(),
            carried_out(
                old(self).ledger(),
                final(self).ledger(),
                old(self).ledger().remove_edition_allowance(
                    token_id,
                    edition_id,
                    account@,
                    caller@,
                ),
                result,
            ),
            result is Ok ==> final(self).ledger().check_allowance(token_id, edition_id, account@)
                == Ok::<bool, MarketError>(false),
    ;

    /// Whether `account` holds an allowance on an edition.
    fn check_allowance(&self, token_id: TokenId, edition_id: u64, account: AccountId) -> (result:
        Result<bool, MarketError>)
        requires
            self.fit(),
        ensures
            result == self.ledger().check_allowance(token_id, edition_id, account@),
    ;
}

impl NEP4 for NonFungibleToken {
    open spec fn ledger(&self) -> MarketState {
        self@
    }

    open spec fn fit(&self) -> bool {
        self.wf()
    }

    fn grant_access(&mut self, escrow_account_id: AccountId, caller: &AccountId) -> (result: Result<
        (),
        MarketError,
    >) {
        proof {
            lemma_escrow_follows(self@, caller@, escrow_account_id@);
        }
        match self.grants_at(caller) {
            Some(i) => {
                if holds_account(&self.account_gives_access[i].delegates, &escrow_account_id) {
                    return Err(MarketError::AlreadyGranted);
                }
                proof {
                    lemma_names_follow(
                        self.account_gives_access[i as int].delegates@,
                        escrow_account_id,
                        0,
                    );
                }
                self.account_gives_access[i].delegates.push(escrow_account_id);
                proof {
                    lemma_grants_changed(
                        old(self).account_gives_access@,
                        self.account_gives_access@,
                        i as int,
                    );
                    assert(self@ =~~= old(self)@.grant_access(caller@, escrow_account_id@)->Ok_0);
                }
            },
            None => {
                let mut delegates: Vec<AccountId> = Vec::new();
                delegates.push(escrow_account_id);
                let entry = EscrowRecord { account: caller.clone(), delegates };
                proof {
                    lemma_grants_added(self.account_gives_access@, entry);
                    assert(names(entry.delegates@) =~= Seq::<AccountName>::empty().push(
                        escrow_account_id@,
                    ));
                }
                self.account_gives_access.push(entry);
                proof {
                    assert(self@ =~~= old(self)@.grant_access(caller@, escrow_account_id@)->Ok_0);
                }
            },
        }
        Ok(())
    }

    fn revoke_access(&mut self, escrow_account_id: AccountId, caller: &AccountId) {
        proof {
            lemma_escrow_follows(self@, caller@, escrow_account_id@);
        }
        match self.grants_at(caller) {
            Some(i) => {
                match find_account(&self.account_gives_access[i].delegates, &escrow_account_id) {
                    Some(at) => {
                        proof {
                            lemma_first_index_is_unique(
                                names(self.account_gives_access[i as int].delegates@),
                                escrow_account_id@,
                                at as int,
                            );
                            lemma_names_follow(
                                self.account_gives_access[i as int].delegates@,
                                escrow_account_id,
                                at as int,
                            );
                        }
                        self.account_gives_access[i].delegates.remove(at);
                        proof {
                            lemma_grants_changed(
                                old(self).account_gives_access@,
                                self.account_gives_access@,
                                i as int,
                            );
                            assert(self@ =~~= old(self)@.revoke_access(
                                caller@,
                                escrow_account_id@,
                            ));
                        }
                    },
                    None => {},
                }
            },
            None => {},
        }
    }

    fn transfer_from(
        &mut self,
        from: AccountId,
        to: AccountId,
        token_id: u64,
        edition_number: u64,
        caller: &AccountId,
    ) -> (result: Result<(), MarketError>) {
        match self.slot_of(token_id, edition_number) {
            None => Err(MarketError::NotFound),
            Some(slot) => self.transfer_edition(
                slot as u64 + 1,
                &from,
                to,
                edition_number,
                TransferMode::Delegated,
                caller,
            ),
        }
    }

    fn transfer(
        &mut self,
        to: AccountId,
        token_id: TokenId,
        edition_number: EditionNumber,
        caller: &AccountId,
    ) -> (result: Result<(), MarketError>) {
        match self.slot_of(token_id, edition_number) {
            None => Err(MarketError::NotFound),
            Some(slot) => self.transfer_edition(
                slot as u64 + 1,
                caller,
                to,
                edition_number,
                TransferMode::Direct,
                caller,
            ),
        }
    }

    fn check_access(&self, account_id: AccountId, escrow_id: AccountId) -> (granted: bool) {
        self.is_escrow(account_id, escrow_id)
    }

    fn grant_edition_allowance(
        &mut self,
        token_id: TokenId,
        edition_id: u64,
        account: AccountId,
        caller: &AccountId,
    ) -> (result: Result<(), MarketError>) {
        proof {
            lemma_allowance_follows(self@, token_id, edition_id, account@, caller@);
        }
        let slot = match self.held_slot(token_id, edition_id, caller) {
            Ok(slot) => slot,
            Err(e) => {
                return Err(e);
            },
        };
        if holds_account(&self.edition_allowances[slot], &account) {
            return Err(MarketError::AlreadyGranted);
        }
        proof {
            lemma_names_follow(self.edition_allowances[slot as int]@, account, 0);
        }
        self.edition_allowances[slot].push(account);
        proof {
            assert(self@ =~~= old(self)@.grant_edition_allowance(
                token_id,
                edition_id,
                account@,
                caller@,
            )->Ok_0);
        }
        Ok(())
    }

    fn remove_edition_allowance(
        &mut self,
        token_id: TokenId,
        edition_id: u64,
        account: AccountId,
        caller: &AccountId,
    ) -> (result: Result<(), MarketError>) {
        proof {
            lemma_allowance_follows(self@, token_id, edition_id, account@, caller@);
        }
        let slot = match self.held_slot(token_id, edition_id, caller) {
            Ok(slot) => slot,
            Err(e) => {
                return Err(e);
            },
        };
        match find_account(&self.edition_allowances[slot], &account) {
            None => Err(MarketError::NotFound),
            Some(at) => {
                proof {
                    lemma_first_index_is_unique(
                        names(self.edition_allowances[slot as int]@),
                        account@,
                        at as int,
                    );
                    lemma_names_follow(self.edition_allowances[slot as int]@, account, at as int);
                }
                self.edition_allowances[slot].remove(at);
                proof {
                    assert(self@ =~~= old(self)@.remove_edition_allowance(
                        token_id,
                        edition_id,
                        account@,
                        caller@,
                    )->Ok_0);
                }
                Ok(())
            },
        }
    }

    fn check_allowance(&self, token_id: TokenId, edition_id: u64, account: AccountId) -> (result:
        Result<bool, MarketError>) {
        match self.slot_of(token_id, edition_id) {
            None => Err(MarketError::NotFound),
            Some(slot) => Ok(holds_account(&self.edition_allowances[slot], &account)),
        }
    }
}

} // verus!
