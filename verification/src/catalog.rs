//! The catalog: tokens with their editions and metadata, collections with
//! their minters, and the burning of editions.

use vstd::prelude::*;
use crate::accounts::{
    lemma_merged, lemma_push_keeps_distinct, lemma_without_removes, merged, without,
};
use crate::error::MarketError;
use crate::model::{CollectionView, EditionState, EditionView, MetadataView, Token};
use crate::state::{lemma_located_edition, MarketState, MAX_TAGS};
use crate::text::{byte_len, decimal_digits};
use crate::types::{AccountName, Balance, CollectionId, EditionNumber, TokenId};

verus! {

/// The editions that a mint creates: numbered from 1, all owned by `owner`.
pub open spec fn minted_editions(token_id: TokenId, owner: AccountName, count: nat) -> Seq<
    EditionView,
> {
    Seq::new(
        count,
        |k: int| EditionView { edition_number: (k + 1) as u64, edition_owner: owner, token_id },
    )
}

impl MarketState {
    /// The deposit that minting a token with `editions` editions takes.
    pub open spec fn mint_fee_due(self, editions: EditionNumber) -> int {
        self.mint_storage_fee + self.edition_storage_fee * editions
    }

    /// Whether the ledger accepts this metadata for a new token: the
    /// edition and tag counts and the lengths of name, description and
    /// external link are within their ceilings (the name strictly below
    /// its own), and the ledger has room for the token and its editions.
    pub open spec fn valid_token_metadata(self, metadata: MetadataView) -> bool {
        &&& metadata.editions <= self.max_editions
        &&& byte_len(metadata.description) <= self.max_description_length
        &&& byte_len(metadata.name) < self.max_name_length
        &&& byte_len(metadata.external_link) <= self.max_external_link
        &&& metadata.tags.len() <= MAX_TAGS
        &&& self.tokens.len() < u64::MAX
        &&& self.editions.len() + metadata.editions <= u64::MAX
    }

    /// Whether `payer` may mint into a collection that exists: into the
    /// genesis collection as a whitelisted minter, into any other as one of
    /// that collection's minters.
    pub open spec fn may_mint(self, payer: AccountName, collection_id: CollectionId) -> bool {
        if collection_id == 0 {
            self.minters.contains(payer)
        } else {
            self.collection(collection_id)->0.minters.contains(payer)
        }
    }

    /// Why a mint is rejected, if so. The checks are made in this order:
    /// the deposit is below the fee; the metadata is not acceptable; the
    /// collection does not exist; the payer may not mint into it.
    pub open spec fn mint_obstacle(
        self,
        metadata: MetadataView,
        payer: AccountName,
        attached_deposit: Balance,
    ) -> Option<MarketError> {
        if attached_deposit < self.mint_fee_due(metadata.editions) {
            Some(MarketError::InsufficientDeposit)
        } else if !self.valid_token_metadata(metadata) {
            Some(MarketError::ValidationFailed)
        } else if self.collection(metadata.collection_id) is None {
            Some(MarketError::NotFound)
        } else if !self.may_mint(payer, metadata.collection_id) {
            Some(MarketError::Unauthorized)
        } else {
            None
        }
    }

    /// The ledger with one more token, which takes the next token id and
    /// the next block of global indices. The metadata is stored with the
    /// payer as creator and the time as date. Each new edition belongs to
    /// the payer and is available, with no allowance and no bid.
    pub open spec fn with_minted(
        self,
        metadata: MetadataView,
        payer: AccountName,
        timestamp: u64,
    ) -> MarketState {
        let token_id = self.tokens.len() as u64;
        let count = metadata.editions as nat;
        MarketState {
            tokens: self.tokens.push(
                Token {
                    edition_index: self.editions.len() as u64,
                    editions: metadata.editions,
                    metadata: token_id,
                },
            ),
            metadata: self.metadata.push(
                MetadataView {
                    creator: payer,
                    date: decimal_digits(timestamp as nat),
                    ..metadata
                },
            ),
            editions: self.editions + minted_editions(token_id, payer, count),
            states: self.states + Seq::new(count, |k: int| EditionState::AVAILABLE),
            allowances: self.allowances + Seq::new(count, |k: int| Seq::<AccountName>::empty()),
            bids: self.bids + Seq::new(count, |k: int| Seq::empty()),
            ..self
        }
    }

    /// Mints a token. The new token's id is the supply before the mint.
    pub open spec fn mint(
        self,
        metadata: MetadataView,
        payer: AccountName,
        attached_deposit: Balance,
        timestamp: u64,
    ) -> Result<MarketState, MarketError> {
        match self.mint_obstacle(metadata, payer, attached_deposit) {
            Some(e) => Err(e),
            None => Ok(self.with_minted(metadata, payer, timestamp)),
        }
    }

    /// Whether the ledger accepts this collection: name and description
    /// within their ceilings, a thumbnail of the length of a content hash,
    /// and room for one more collection.
    pub open spec fn valid_collection(self, collection: CollectionView) -> bool {
        &&& byte_len(collection.name) <= self.max_name_length
        &&& byte_len(collection.description) <= self.max_description_length
        &&& byte_len(collection.thumbnail) == self.ipfs_hash_length
        &&& self.collections.len() + 1 < u64::MAX
    }

    /// Creates a collection. The payer becomes its creator and its first
    /// minter; the minters that came with the request follow, each once.
    /// The new collection's id is the number of collections after the
    /// creation.
    pub open spec fn create_collection(
        self,
        collection: CollectionView,
        payer: AccountName,
        attached_deposit: Balance,
        timestamp: u64,
    ) -> Result<MarketState, MarketError> {
        if attached_deposit < self.create_collection_fee {
            Err(MarketError::InsufficientDeposit)
        } else if !self.valid_collection(collection) {
            Err(MarketError::ValidationFailed)
        } else if !self.minters.contains(payer) {
            Err(MarketError::Unauthorized)
        } else {
            Ok(
                MarketState {
                    collections: self.collections.push(
                        CollectionView {
                            creator: payer,
                            date: decimal_digits(timestamp as nat),
                            minters: merged(seq![payer], collection.minters),
                            ..collection
                        },
                    ),
                    ..self
                },
            )
        }
    }

    /// The ledger with the collection `collection_id` replaced.
    pub open spec fn with_collection(
        self,
        collection_id: CollectionId,
        collection: CollectionView,
    ) -> MarketState {
        if collection_id == 0 {
            MarketState { genesis: Some(collection), ..self }
        } else {
            MarketState {
                collections: self.collections.update(collection_id - 1, collection),
                ..self
            }
        }
    }

    /// The creator of a collection adds a minter to it.
    pub open spec fn add_collection_minter(
        self,
        collection_id: CollectionId,
        person: AccountName,
        caller: AccountName,
    ) -> Result<MarketState, MarketError> {
        match self.collection(collection_id) {
            None => Err(MarketError::NotFound),
            Some(c) => if c.creator != caller {
                Err(MarketError::Unauthorized)
            } else if c.minters.contains(person) {
                Err(MarketError::AlreadyExists)
            } else {
                Ok(
                    self.with_collection(
                        collection_id,
                        CollectionView { minters: c.minters.push(person), ..c },
                    ),
                )
            },
        }
    }

    /// The creator of a collection removes a minter from it. The creator
    /// stays a minter: a request to remove the creator is not valid.
    pub open spec fn remove_collection_minter(
        self,
        collection_id: CollectionId,
        person: AccountName,
        caller: AccountName,
    ) -> Result<MarketState, MarketError> {
        match self.collection(collection_id) {
            None => Err(MarketError::NotFound),
            Some(c) => if c.creator != caller {
                Err(MarketError::Unauthorized)
            } else if person == c.creator {
                Err(MarketError::ValidationFailed)
            } else if !c.minters.contains(person) {
                Err(MarketError::NotFound)
            } else {
                Ok(
                    self.with_collection(
                        collection_id,
                        CollectionView { minters: without(c.minters, person), ..c },
                    ),
                )
            },
        }
    }

    /// The owner destroys an edition. The edition keeps its place, its
    /// number and its last owner; it loses its listing and its allowances.
    pub open spec fn burn_edition(
        self,
        token_id: TokenId,
        edition_number: EditionNumber,
        caller: AccountName,
    ) -> Result<MarketState, MarketError> {
        match self.owner_obstacle(token_id, edition_number, caller) {
            Some(e) => Err(e),
            None => {
                let slot = self.locate(token_id, edition_number)->0;
                Ok(
                    MarketState {
                        states: self.states.update(slot, EditionState::BURNED),
                        listings: self.listings.remove((slot + 1) as u64),
                        allowances: self.allowances.update(slot, Seq::empty()),
                        ..self
                    },
                )
            },
        }
    }
}

/// A mint leaves a consistent ledger. The new token takes the next id, and
/// its editions take the global indices that follow the highest one in
/// use, in the order of their numbers; every edition that was there keeps
/// its place, its number, its owner and its state.
pub proof fn lemma_mint_follows(
    s: MarketState,
    metadata: MetadataView,
    payer: AccountName,
    attached_deposit: Balance,
    timestamp: u64,
)
    requires
        s.inv(),
    ensures
        s.mint(metadata, payer, attached_deposit, timestamp) matches Ok(n) ==> {
            &&& n.follows(s, None)
            &&& n.current_supply() == s.current_supply() + 1
            &&& n.total_editions() == s.total_editions() + metadata.editions
            &&& forall|k: EditionNumber|
                1 <= k <= metadata.editions ==> {
                    &&& #[trigger] n.has_edition(s.current_supply() as u64, k)
                    &&& n.global_index(s.current_supply() as u64, k) == s.total_editions() + k
                    &&& n.editions[s.total_editions() + k - 1].edition_owner == payer
                    &&& n.states[s.total_editions() + k - 1] == EditionState::AVAILABLE
                }
            &&& forall|i: int|
                0 <= i < s.editions.len() ==> #[trigger] n.editions[i] == s.editions[i]
                    && n.states[i] == s.states[i]
        },
{
    if s.mint_obstacle(metadata, payer, attached_deposit) is None {
        let n = s.with_minted(metadata, payer, timestamp);
        let t_new = s.tokens.len() as int;
        let base = s.editions.len() as int;
        let fresh = minted_editions(t_new as u64, payer, metadata.editions as nat);
        assert(n.counts_agree());
        assert(n.tokens_tile_editions()) by {
            assert forall|t: int| 0 <= t < n.tokens.len() implies {
                &&& (#[trigger] n.tokens[t]).metadata == t
                &&& n.tokens[t].edition_index + n.tokens[t].editions <= n.editions.len()
            } by {
                if t < t_new {
                    assert(n.tokens[t] == s.tokens[t]);
                }
            }
            assert forall|t: int, u: int| 0 <= t < u < n.tokens.len() implies (
            #[trigger] n.tokens[t]).edition_index + n.tokens[t].editions <= (
            #[trigger] n.tokens[u]).edition_index by {
                assert(n.tokens[t] == s.tokens[t]);
                if u < t_new {
                    assert(n.tokens[u] == s.tokens[u]);
                }
            }
            assert forall|i: int| 0 <= i < n.editions.len() implies {
                let e = #[trigger] n.editions[i];
                &&& e.token_id < n.tokens.len()
                &&& n.tokens[e.token_id as int].edition_index < i + 1
                &&& i + 1 <= n.tokens[e.token_id as int].edition_index
                    + n.tokens[e.token_id as int].editions
                &&& e.edition_number == i + 1 - n.tokens[e.token_id as int].edition_index
            } by {
                if i < base {
                    let e = s.editions[i];
                    assert(n.editions[i] == e);
                    assert(n.tokens[e.token_id as int] == s.tokens[e.token_id as int]);
                } else {
                    assert(n.editions[i] == fresh[i - base]);
                }
            }
        }
        assert(n.listings_match_states()) by {
            assert forall|g: u64| #[trigger]
                n.listings.contains_key(g) <==> (1 <= g <= n.editions.len() && n.states[g - 1]
                    == EditionState::LISTED) by {
                assert(s.listings.contains_key(g) <==> (1 <= g <= s.editions.len() && s.states[g
                    - 1] == EditionState::LISTED));
            }
        }
        assert(n.grants_are_distinct()) by {
            assert forall|i: int| 0 <= i < n.allowances.len() implies (
            #[trigger] n.allowances[i]).no_duplicates() by {
                if i < base {
                    assert(n.allowances[i] == s.allowances[i]);
                }
            }
        }
        assert forall|k: EditionNumber| 1 <= k <= metadata.editions implies {
            &&& #[trigger] n.has_edition(s.current_supply() as u64, k)
            &&& n.global_index(s.current_supply() as u64, k) == s.total_editions() + k
            &&& n.editions[s.total_editions() + k - 1].edition_owner == payer
            &&& n.states[s.total_editions() + k - 1] == EditionState::AVAILABLE
        } by {
            assert(n.editions[base + k - 1] == fresh[k - 1]);
        }
    }
}

/// Creating a collection leaves a consistent ledger with one collection
/// more and every edition and bid as it was. The new collection has the
/// payer as creator and first minter.
pub proof fn lemma_create_collection_follows(
    s: MarketState,
    collection: CollectionView,
    payer: AccountName,
    attached_deposit: Balance,
    timestamp: u64,
)
    requires
        s.inv(),
    ensures
        s.create_collection(collection, payer, attached_deposit, timestamp) matches Ok(n) ==> {
            &&& n.follows(s, None)
            &&& n.total_collections() == s.total_collections() + 1
            &&& n.collections.last().creator == payer
            &&& n.collections.last().minters[0] == payer
            &&& forall|account: AccountName|
                #[trigger] n.collections.last().minters.contains(account) <==> account == payer
                    || collection.minters.contains(account)
        },
{
    if s.create_collection(collection, payer, attached_deposit, timestamp) is Ok {
        let n = s.create_collection(collection, payer, attached_deposit, timestamp)->Ok_0;
        let first = seq![payer];
        assert(first.no_duplicates());
        lemma_merged(first, collection.minters);
        let minters = merged(first, collection.minters);
        assert(minters[0] == first[0]);
        assert(minters.contains(payer));
        assert forall|account: AccountName| #[trigger]
            minters.contains(account) <==> account == payer || collection.minters.contains(
                account,
            ) by {
            assert(first.contains(account) <==> account == payer) by {
                if account == payer {
                    assert(first[0] == account);
                }
            }
        }
        assert(n.collections_are_sound()) by {
            assert forall|i: int| 0 <= i < n.collections.len() implies (
            #[trigger] n.collections[i]).is_sound() by {
                if i < s.collections.len() {
                    assert(n.collections[i] == s.collections[i]);
                }
            }
        }
        assert(n.listings_match_states());
        assert(n.tokens_tile_editions());
        assert(n.grants_are_distinct());
    }
}

/// Changing the minters of a collection leaves a consistent ledger with
/// every edition and bid as it was. A minter that was added is a minter of
/// the collection, and one that was removed no longer is.
pub proof fn lemma_collection_minters_follow(
    s: MarketState,
    collection_id: CollectionId,
    person: AccountName,
    caller: AccountName,
)
    requires
        s.inv(),
    ensures
        s.add_collection_minter(collection_id, person, caller) matches Ok(n) ==> {
            &&& n.follows(s, None)
            &&& n.collection(collection_id)->0.minters.contains(person)
        },
        s.remove_collection_minter(collection_id, person, caller) matches Ok(n) ==> {
            &&& n.follows(s, None)
            &&& !n.collection(collection_id)->0.minters.contains(person)
        },
{
    if s.collection(collection_id) is Some {
        let c = s.collection(collection_id)->0;
        assert(c.minters.no_duplicates());
        if s.add_collection_minter(collection_id, person, caller) is Ok {
            let n = s.add_collection_minter(collection_id, person, caller)->Ok_0;
            lemma_push_keeps_distinct(c.minters, person);
            let grown = c.minters.push(person);
            assert(grown[c.minters.len() as int] == person);
            if collection_id != 0 {
                let at = choose|at: int| 0 <= at < c.minters.len() && c.minters[at] == c.creator;
                assert(grown[at] == c.creator);
            }
            assert(n.collections_are_sound()) by {
                assert forall|i: int| 0 <= i < n.collections.len() implies (
                #[trigger] n.collections[i]).is_sound() by {
                    if i != collection_id - 1 {
                        assert(n.collections[i] == s.collections[i]);
                    }
                }
            }
            assert(n.listings_match_states());
            assert(n.tokens_tile_editions());
            assert(n.grants_are_distinct());
        }
        if s.remove_collection_minter(collection_id, person, caller) is Ok {
            let n = s.remove_collection_minter(collection_id, person, caller)->Ok_0;
            lemma_without_removes(c.minters, person);
            assert(n.collections_are_sound()) by {
                assert forall|i: int| 0 <= i < n.collections.len() implies (
                #[trigger] n.collections[i]).is_sound() by {
                    if i != collection_id - 1 {
                        assert(n.collections[i] == s.collections[i]);
                    }
                }
            }
            assert(n.listings_match_states());
            assert(n.tokens_tile_editions());
            assert(n.grants_are_distinct());
        }
    }
}

/// The creator of a collection that was created on request is one of its
/// minters at every point in time, and no request takes the creator out.
pub proof fn lemma_creator_stays_a_minter(
    s: MarketState,
    collection_id: CollectionId,
    caller: AccountName,
)
    requires
        s.inv(),
        1 <= collection_id <= s.total_collections(),
    ensures
        s.collection(collection_id)->0.minters.contains(s.collection(collection_id)->0.creator),
        s.remove_collection_minter(
            collection_id,
            s.collection(collection_id)->0.creator,
            caller,
        ) is Err,
{
    assert(s.collections[collection_id - 1].is_sound());
}

/// Burning an edition leaves a consistent ledger in which every edition
/// and bid is where it was, with the owner it had.
pub proof fn lemma_burn_follows(
    s: MarketState,
    token_id: TokenId,
    edition_number: EditionNumber,
    caller: AccountName,
)
    requires
        s.inv(),
    ensures
        s.burn_edition(token_id, edition_number, caller) matches Ok(n) ==> n.follows(s, None),
{
    if s.owner_obstacle(token_id, edition_number, caller) is None {
        lemma_located_edition(s, token_id, edition_number);
        let slot = s.locate(token_id, edition_number)->0;
        let n = s.burn_edition(token_id, edition_number, caller)->Ok_0;
        assert(n.listings_match_states()) by {
            assert forall|g: u64| #[trigger]
                n.listings.contains_key(g) <==> (1 <= g <= n.editions.len() && n.states[g - 1]
                    == EditionState::LISTED) by {
                assert(s.listings.contains_key(g) <==> (1 <= g <= s.editions.len() && s.states[g
                    - 1] == EditionState::LISTED));
            }
        }
        assert(n.tokens_tile_editions());
        assert(n.grants_are_distinct()) by {
            assert forall|i: int| 0 <= i < n.allowances.len() implies (
            #[trigger] n.allowances[i]).no_duplicates() by {
                if i != slot {
                    assert(n.allowances[i] == s.allowances[i]);
                }
            }
        }
    }
}

} // verus!
