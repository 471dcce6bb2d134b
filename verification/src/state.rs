//! The ledger as a mathematical value: what is stored, how a token and an
//! edition number lead to an edition, and what holds of every ledger that
//! the operations can reach.

use vstd::prelude::*;
use crate::error::MarketError;
use crate::model::{BidView, CollectionView, EditionState, EditionView, MetadataView, Token};
use crate::types::{AccountName, Balance, CollectionId, EditionNumber, TokenId, TokenPrice};

verus! {

/// Fee for minting a token, before the per-edition fee, on a new ledger.
pub const INITIAL_MINT_STORAGE_FEE: Balance = 300_000_000_000_000_000_000_000;

/// Fee per minted edition on a new ledger.
pub const INITIAL_EDITION_STORAGE_FEE: Balance = 35_000_000_000_000_000_000_000;

/// Fee for creating a collection on a new ledger.
pub const INITIAL_CREATE_COLLECTION_FEE: Balance = 2_000_000_000_000_000_000;

/// Divisor that gives the platform's share of a sale on a new ledger.
pub const INITIAL_TRADE_FEE: Balance = 13;

/// Ceiling, in bytes, on names on a new ledger.
pub const INITIAL_MAX_NAME_LENGTH: u8 = 30;

/// Ceiling, in bytes, on descriptions on a new ledger.
pub const INITIAL_MAX_DESCRIPTION_LENGTH: u8 = 250;

/// Length, in bytes, of a content hash.
pub const INITIAL_IPFS_HASH_LENGTH: u8 = 46;

/// Ceiling on the editions of one token on a new ledger.
pub const INITIAL_MAX_EDITIONS: u8 = 25;

/// Ceiling, in bytes, on external links on a new ledger.
pub const INITIAL_MAX_EXTERNAL_LINK: u8 = 100;

/// Ceiling on the tags of one token.
pub const MAX_TAGS: usize = 3;

/// Everything the ledger holds.
///
/// Editions are kept in the order of their global index: the edition with
/// global index `g` is at position `g - 1` of `editions`, `states`,
/// `allowances` and `bids`. Tokens are kept in the order of their id, and
/// collections other than the genesis collection in the order of theirs,
/// which start at 1.
#[verifier::ext_equal]
pub struct MarketState {
    pub owner_id: AccountName,
    pub fee_receiver: AccountName,
    pub paused: bool,
    pub mint_storage_fee: Balance,
    pub edition_storage_fee: Balance,
    pub create_collection_fee: Balance,
    pub trade_fee: Balance,
    pub max_name_length: u8,
    pub max_description_length: u8,
    pub ipfs_hash_length: u8,
    pub max_editions: u8,
    pub max_external_link: u8,
    /// Accounts that may mint outside a collection and create collections.
    pub minters: Seq<AccountName>,
    pub tokens: Seq<Token>,
    pub metadata: Seq<MetadataView>,
    /// The collection with id 0, once the owner has created it.
    pub genesis: Option<CollectionView>,
    pub collections: Seq<CollectionView>,
    pub editions: Seq<EditionView>,
    pub states: Seq<EditionState>,
    /// Price of each edition that is for sale, by global index.
    pub listings: Map<u64, TokenPrice>,
    /// For each edition, the accounts that may transfer that edition.
    pub allowances: Seq<Seq<AccountName>>,
    /// For each edition, the bids made on it, oldest first.
    pub bids: Seq<Seq<BidView>>,
    /// For each account that ever granted escrow, the accounts that may
    /// transfer any edition the account owns.
    pub escrows: Map<AccountName, Seq<AccountName>>,
}

/// An edition changing hands: the position of the edition and the account
/// that receives it.
pub struct Handover {
    pub slot: int,
    pub to: AccountName,
}

/// The handover of the edition at `slot` to `to`.
pub open spec fn handed(slot: int, to: AccountName) -> Option<Handover> {
    Some(Handover { slot, to })
}

/// Whether an edition in this state is withheld from every change of owner,
/// listing and bid.
pub open spec fn frozen(state: EditionState) -> bool {
    state == EditionState::LOCKED || state == EditionState::BURNED
}

impl MarketState {
    /// The ledger right after it is set up: paused, with no minter, token,
    /// collection or grant.
    pub open spec fn initial(owner_id: AccountName, fee_receiver: AccountName) -> MarketState {
        MarketState {
            owner_id,
            fee_receiver,
            paused: true,
            mint_storage_fee: INITIAL_MINT_STORAGE_FEE,
            edition_storage_fee: INITIAL_EDITION_STORAGE_FEE,
            create_collection_fee: INITIAL_CREATE_COLLECTION_FEE,
            trade_fee: INITIAL_TRADE_FEE,
            max_name_length: INITIAL_MAX_NAME_LENGTH,
            max_description_length: INITIAL_MAX_DESCRIPTION_LENGTH,
            ipfs_hash_length: INITIAL_IPFS_HASH_LENGTH,
            max_editions: INITIAL_MAX_EDITIONS,
            max_external_link: INITIAL_MAX_EXTERNAL_LINK,
            minters: Seq::empty(),
            tokens: Seq::empty(),
            metadata: Seq::empty(),
            genesis: None,
            collections: Seq::empty(),
            editions: Seq::empty(),
            states: Seq::empty(),
            listings: Map::empty(),
            allowances: Seq::empty(),
            bids: Seq::empty(),
            escrows: Map::empty(),
        }
    }

    /// How many tokens have been minted; also the id of the next one.
    pub open spec fn current_supply(self) -> nat {
        self.tokens.len()
    }

    /// How many editions have been created; also the highest global index
    /// in use.
    pub open spec fn total_editions(self) -> nat {
        self.editions.len()
    }

    /// How many collections have been created besides the genesis
    /// collection; also the highest collection id in use.
    pub open spec fn total_collections(self) -> nat {
        self.collections.len()
    }

    /// Whether `edition_number` numbers an edition of the token `token_id`.
    pub open spec fn has_edition(self, token_id: TokenId, edition_number: EditionNumber) -> bool {
        &&& token_id < self.tokens.len()
        &&& 1 <= edition_number <= self.tokens[token_id as int].editions
    }

    /// The global index of an edition of a token.
    pub open spec fn global_index(self, token_id: TokenId, edition_number: EditionNumber) -> int {
        self.tokens[token_id as int].edition_index + edition_number
    }

    /// The position at which an edition of a token is kept, if there is
    /// such an edition.
    pub open spec fn locate(self, token_id: TokenId, edition_number: EditionNumber) -> Option<int> {
        if self.has_edition(token_id, edition_number) {
            Some(self.global_index(token_id, edition_number) - 1)
        } else {
            None
        }
    }

    /// The collection with the given id, if it exists.
    pub open spec fn collection(self, collection_id: CollectionId) -> Option<CollectionView> {
        if collection_id == 0 {
            self.genesis
        } else if collection_id <= self.collections.len() {
            Some(self.collections[collection_id - 1])
        } else {
            None
        }
    }

    /// The accounts to which `account` has granted escrow, in the order of
    /// the grants. An account that never granted any has none.
    pub open spec fn delegates_of(self, account: AccountName) -> Seq<AccountName> {
        if self.escrows.contains_key(account) {
            self.escrows[account]
        } else {
            Seq::empty()
        }
    }

    /// Whether `caller` may move the edition at `slot`, which `owner` owns:
    /// as the owner, by the owner's escrow grant, or by an allowance on
    /// that one edition.
    pub open spec fn is_authorized(self, owner: AccountName, caller: AccountName, slot: int) -> bool {
        ||| caller == owner
        ||| self.delegates_of(owner).contains(caller)
        ||| self.allowances[slot].contains(caller)
    }

    /// Why `caller` may not tend to an edition as its owner, if so: the
    /// edition does not exist, the caller does not own it, or it is burned.
    /// The checks are made in this order. A locked edition can be tended
    /// to: its allowances can be changed, and it can be taken off the
    /// market, where it is not.
    pub open spec fn holder_obstacle(
        self,
        token_id: TokenId,
        edition_number: EditionNumber,
        caller: AccountName,
    ) -> Option<MarketError> {
        match self.locate(token_id, edition_number) {
            None => Some(MarketError::NotFound),
            Some(slot) => if self.editions[slot].edition_owner != caller {
                Some(MarketError::Unauthorized)
            } else if self.states[slot] == EditionState::BURNED {
                Some(MarketError::InvalidState)
            } else {
                None
            },
        }
    }

    /// Why `caller` may not list or burn an edition as its owner, if so:
    /// the edition does not exist, the caller does not own it, or it is
    /// locked or burned. The checks are made in this order.
    pub open spec fn owner_obstacle(
        self,
        token_id: TokenId,
        edition_number: EditionNumber,
        caller: AccountName,
    ) -> Option<MarketError> {
        match self.locate(token_id, edition_number) {
            None => Some(MarketError::NotFound),
            Some(slot) => if self.editions[slot].edition_owner != caller {
                Some(MarketError::Unauthorized)
            } else if frozen(self.states[slot]) {
                Some(MarketError::InvalidState)
            } else {
                None
            },
        }
    }

    /// The per-edition and per-token sequences have matching lengths, and
    /// every count fits the integer that reports it.
    pub open spec fn counts_agree(self) -> bool {
        &&& self.metadata.len() == self.tokens.len()
        &&& self.states.len() == self.editions.len()
        &&& self.allowances.len() == self.editions.len()
        &&& self.bids.len() == self.editions.len()
        &&& self.tokens.len() <= u64::MAX
        &&& self.editions.len() <= u64::MAX
        &&& self.collections.len() < u64::MAX
    }

    /// Each token owns a block of global indices; the blocks follow one
    /// another in the order of the token ids without overlapping, and every
    /// edition lies in the block of its token at the place of its number.
    pub open spec fn tokens_tile_editions(self) -> bool {
        &&& forall|t: int|
            0 <= t < self.tokens.len() ==> {
                &&& (#[trigger] self.tokens[t]).metadata == t
                &&& self.tokens[t].edition_index + self.tokens[t].editions <= self.editions.len()
            }
        &&& forall|t: int, u: int|
            0 <= t < u < self.tokens.len() ==> (#[trigger] self.tokens[t]).edition_index
                + self.tokens[t].editions <= (#[trigger] self.tokens[u]).edition_index
        &&& forall|i: int|
            0 <= i < self.editions.len() ==> {
                let e = #[trigger] self.editions[i];
                &&& e.token_id < self.tokens.len()
                &&& self.tokens[e.token_id as int].edition_index < i + 1
                &&& i + 1 <= self.tokens[e.token_id as int].edition_index
                    + self.tokens[e.token_id as int].editions
                &&& e.edition_number == i + 1 - self.tokens[e.token_id as int].edition_index
            }
    }

    /// An edition has a listing exactly while its state is `LISTED`.
    pub open spec fn listings_match_states(self) -> bool {
        forall|g: u64| #[trigger]
            self.listings.contains_key(g) <==> (1 <= g <= self.editions.len() && self.states[g
                - 1] == EditionState::LISTED)
    }

    /// No account occurs twice among the minters, in an edition's
    /// allowances or in an account's escrow grants.
    pub open spec fn grants_are_distinct(self) -> bool {
        &&& self.minters.no_duplicates()
        &&& forall|i: int|
            0 <= i < self.allowances.len() ==> (#[trigger] self.allowances[i]).no_duplicates()
        &&& forall|a: AccountName|
            self.escrows.contains_key(a) ==> (#[trigger] self.escrows[a]).no_duplicates()
    }

    /// The minters of every collection are distinct, and the creator of a
    /// collection is one of them. The genesis collection is the exception
    /// to the second: it starts without minters, since minting into it goes
    /// by the whitelist.
    pub open spec fn collections_are_sound(self) -> bool {
        &&& self.genesis matches Some(genesis) ==> genesis.minters.no_duplicates()
        &&& forall|i: int|
            0 <= i < self.collections.len() ==> (#[trigger] self.collections[i]).is_sound()
    }

    /// Whether this ledger can come after `earlier`: every edition of
    /// `earlier` is still there under its index, token and number; what was
    /// locked is locked and what was burned is burned; every bid is still in
    /// its place, and settled if it was settled.
    pub open spec fn continues(self, earlier: MarketState) -> bool {
        &&& earlier.editions.len() <= self.editions.len()
        &&& forall|i: int|
            0 <= i < earlier.editions.len() ==> {
                &&& (#[trigger] self.editions[i]).token_id == earlier.editions[i].token_id
                &&& self.editions[i].edition_number == earlier.editions[i].edition_number
            }
        &&& forall|i: int|
            0 <= i < earlier.editions.len() && frozen(earlier.states[i]) ==> #[trigger] self.states[i]
                == earlier.states[i]
        &&& forall|i: int|
            0 <= i < earlier.editions.len() ==> earlier.bids[i].len() <= (
            #[trigger] self.bids[i]).len()
        &&& forall|i: int, b: int|
            0 <= i < earlier.editions.len() && 0 <= b < earlier.bids[i].len()
                && earlier.bids[i][b].executed ==> (#[trigger] self.bids[i][b]).executed
    }

    /// Whether the owners in this ledger are those of `earlier`, but for
    /// the edition at the position that `moved` names, if it names one,
    /// which belongs to the account that `moved` names.
    pub open spec fn owners_follow(
        self,
        earlier: MarketState,
        moved: Option<Handover>,
    ) -> bool {
        forall|i: int|
            0 <= i < earlier.editions.len() ==> (#[trigger] self.editions[i]).edition_owner == (
            match moved {
                Some(handover) if handover.slot == i => handover.to,
                _ => earlier.editions[i].edition_owner,
            })
    }

    /// Whether this ledger is a consistent successor of `earlier` in which
    /// no edition changed hands but the one that `moved` names.
    pub open spec fn follows(self, earlier: MarketState, moved: Option<Handover>) -> bool {
        &&& self.inv()
        &&& self.continues(earlier)
        &&& self.owners_follow(earlier, moved)
    }

    /// What holds of the ledger at every point in time.
    pub open spec fn inv(self) -> bool {
        &&& self.counts_agree()
        &&& self.tokens_tile_editions()
        &&& self.listings_match_states()
        &&& self.grants_are_distinct()
        &&& self.collections_are_sound()
    }
}

/// A new ledger is consistent.
pub proof fn lemma_initial_state_is_consistent(owner_id: AccountName, fee_receiver: AccountName)
    ensures
        MarketState::initial(owner_id, fee_receiver).inv(),
{
}

/// A token id and an edition number of that token lead to one edition, and
/// that edition names the token and the number it was found by.
pub proof fn lemma_located_edition(s: MarketState, token_id: TokenId, edition_number: EditionNumber)
    requires
        s.inv(),
        s.has_edition(token_id, edition_number),
    ensures
        1 <= s.global_index(token_id, edition_number) <= s.total_editions(),
        s.editions[s.global_index(token_id, edition_number) - 1].token_id == token_id,
        s.editions[s.global_index(token_id, edition_number) - 1].edition_number == edition_number,
{
    let t = token_id as int;
    let i = s.global_index(token_id, edition_number) - 1;
    assert(s.tokens[t].edition_index + s.tokens[t].editions <= s.editions.len());
    let e = s.editions[i];
    let u = e.token_id as int;
    if u < t {
        assert(s.tokens[u].edition_index + s.tokens[u].editions <= s.tokens[t].edition_index);
    } else if t < u {
        assert(s.tokens[t].edition_index + s.tokens[t].editions <= s.tokens[u].edition_index);
    }
}

/// The editions of a token with `N` editions have the `N` consecutive
/// global indices that follow the token's edition index; they are distinct,
/// and no edition of another token has one of them.
pub proof fn lemma_global_indices_are_consecutive_and_disjoint(
    s: MarketState,
    token_id: TokenId,
    edition_number: EditionNumber,
    other_token_id: TokenId,
    other_edition_number: EditionNumber,
)
    requires
        s.inv(),
        s.has_edition(token_id, edition_number),
        s.has_edition(other_token_id, other_edition_number),
    ensures
        s.global_index(token_id, edition_number) == s.tokens[token_id as int].edition_index
            + edition_number,
        s.tokens[token_id as int].edition_index < s.global_index(token_id, edition_number)
            <= s.tokens[token_id as int].edition_index + s.tokens[token_id as int].editions,
        s.global_index(token_id, edition_number) <= s.total_editions(),
        (token_id != other_token_id || edition_number != other_edition_number)
            ==> s.global_index(token_id, edition_number) != s.global_index(
            other_token_id,
            other_edition_number,
        ),
{
    lemma_located_edition(s, token_id, edition_number);
    lemma_located_edition(s, other_token_id, other_edition_number);
}

/// An edition is listed exactly when the marketplace holds a price for it.
pub proof fn lemma_listed_iff_priced(s: MarketState, index: u64)
    requires
        s.inv(),
        1 <= index <= s.total_editions(),
    ensures
        s.states[index - 1] == EditionState::LISTED <==> s.listings.contains_key(index),
{
}

} // verus!
