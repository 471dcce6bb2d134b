//! The ledger as plain data: what is written to storage between two
//! requests and read back before the next, together with the test that
//! tells a record that a ledger can be made of from one that it cannot.

use vstd::prelude::*;
use crate::model::{
    bid_views, names, Bid, BidView, Collection, CollectionView, Edition, EditionState, EditionView,
    Metadata, MetadataView, Token,
};
use crate::accounts::holds_account;
use crate::state::MarketState;
use crate::types::{AccountId, AccountName, Balance, TokenPrice};

verus! {

/// The escrow grants of one account.
#[derive(Debug, PartialEq, Eq)]
pub struct EscrowRecord {
    pub account: AccountId,
    pub delegates: Vec<AccountId>,
}

/// Whether the grants at position `i` are those of `account`.
pub open spec fn grants_of(entries: Seq<EscrowRecord>, account: AccountName, i: int) -> bool {
    0 <= i < entries.len() && entries[i].account@ == account
}

/// The escrow grants as a map from the granting account.
pub open spec fn escrow_map(entries: Seq<EscrowRecord>) -> Map<AccountName, Seq<AccountName>> {
    Map::new(
        |account: AccountName| exists|i: int| grants_of(entries, account, i),
        |account: AccountName|
            names(entries[choose|i: int| grants_of(entries, account, i)].delegates@),
    )
}

/// Whether no account has two entries.
pub open spec fn one_entry_each(entries: Seq<EscrowRecord>) -> bool {
    forall|i: int, j: int|
        0 <= i < j < entries.len() ==> (#[trigger] entries[i]).account@ != (
        #[trigger] entries[j]).account@
}

/// Where no account has two entries, the map gives each account the
/// delegates of its entry.
pub proof fn lemma_entry_gives_delegates(entries: Seq<EscrowRecord>, i: int)
    requires
        one_entry_each(entries),
        0 <= i < entries.len(),
    ensures
        escrow_map(entries).contains_key(entries[i].account@),
        escrow_map(entries)[entries[i].account@] == names(entries[i].delegates@),
{
    let account = entries[i].account@;
    assert(grants_of(entries, account, i));
    let k = choose|k: int| grants_of(entries, account, k);
    if k < i {
        assert(entries[k].account@ != entries[i].account@);
    } else if i < k {
        assert(entries[i].account@ != entries[k].account@);
    }
}

/// Changing the delegates of one entry changes the map at that entry's
/// account and nowhere else.
pub proof fn lemma_grants_changed(before: Seq<EscrowRecord>, after: Seq<EscrowRecord>, i: int)
    requires
        one_entry_each(before),
        0 <= i < before.len(),
        after.len() == before.len(),
        forall|j: int| 0 <= j < before.len() ==> (#[trigger] after[j]).account@ == before[j].account@,
        forall|j: int|
            0 <= j < before.len() && j != i ==> names((#[trigger] after[j]).delegates@) == names(
                before[j].delegates@,
            ),
    ensures
        one_entry_each(after),
        escrow_map(after) == escrow_map(before).insert(
            before[i].account@,
            names(after[i].delegates@),
        ),
{
    assert(one_entry_each(after)) by {
        assert forall|a: int, b: int| 0 <= a < b < after.len() implies (#[trigger] after[a]).account@
            != (#[trigger] after[b]).account@ by {
            assert(before[a].account@ != before[b].account@);
        }
    }
    let expected = escrow_map(before).insert(before[i].account@, names(after[i].delegates@));
    assert forall|account: AccountName| escrow_map(after).contains_key(account)
        <==> expected.contains_key(account) by {
        if escrow_map(after).contains_key(account) {
            let j = choose|j: int| grants_of(after, account, j);
            assert(grants_of(before, account, j));
        }
        if expected.contains_key(account) {
            if account == before[i].account@ {
                assert(grants_of(after, account, i));
            } else {
                let j = choose|j: int| grants_of(before, account, j);
                assert(grants_of(after, account, j));
            }
        }
    }
    assert forall|account: AccountName| escrow_map(after).contains_key(account) implies escrow_map(
        after,
    )[account] == expected[account] by {
        let j = choose|j: int| grants_of(after, account, j);
        lemma_entry_gives_delegates(after, j);
        lemma_entry_gives_delegates(before, j);
    }
    assert(escrow_map(after) =~= expected);
}

/// Adding an entry for an account that has none adds that account to the
/// map and changes nothing else.
pub proof fn lemma_grants_added(before: Seq<EscrowRecord>, entry: EscrowRecord)
    requires
        one_entry_each(before),
        !escrow_map(before).contains_key(entry.account@),
    ensures
        one_entry_each(before.push(entry)),
        escrow_map(before.push(entry)) == escrow_map(before).insert(
            entry.account@,
            names(entry.delegates@),
        ),
{
    let after = before.push(entry);
    assert(one_entry_each(after)) by {
        assert forall|a: int, b: int| 0 <= a < b < after.len() implies (#[trigger] after[a]).account@
            != (#[trigger] after[b]).account@ by {
            if b < before.len() {
                assert(before[a].account@ != before[b].account@);
            } else {
                assert(!grants_of(before, entry.account@, a));
            }
        }
    }
    let expected = escrow_map(before).insert(entry.account@, names(entry.delegates@));
    assert forall|account: AccountName| escrow_map(after).contains_key(account)
        <==> expected.contains_key(account) by {
        if escrow_map(after).contains_key(account) {
            let j = choose|j: int| grants_of(after, account, j);
            if j < before.len() {
                assert(grants_of(before, account, j));
            }
        }
        if expected.contains_key(account) {
            if account == entry.account@ {
                assert(grants_of(after, account, before.len() as int));
            } else {
                let j = choose|j: int| grants_of(before, account, j);
                assert(grants_of(after, account, j));
            }
        }
    }
    assert forall|account: AccountName| escrow_map(after).contains_key(account) implies escrow_map(
        after,
    )[account] == expected[account] by {
        let j = choose|j: int| grants_of(after, account, j);
        lemma_entry_gives_delegates(after, j);
        if j < before.len() {
            lemma_entry_gives_delegates(before, j);
        }
    }
    assert(escrow_map(after) =~= expected);
}

/// What pushing and removing do to the accounts of a list.
pub proof fn lemma_names_follow(list: Seq<AccountId>, account: AccountId, i: int)
    ensures
        names(list.push(account)) == names(list).push(account@),
        0 <= i < list.len() ==> names(list.remove(i)) == names(list).remove(i),
{
    assert(names(list.push(account)) =~= names(list).push(account@));
    if 0 <= i < list.len() {
        assert(names(list.remove(i)) =~= names(list).remove(i));
    }
}

/// The values of a list of metadata, in order.
pub open spec fn metadata_views(list: Seq<Metadata>) -> Seq<MetadataView> {
    Seq::new(list.len(), |i: int| list[i]@)
}

/// The values of a list of collections, in order.
pub open spec fn collection_views(list: Seq<Collection>) -> Seq<CollectionView> {
    Seq::new(list.len(), |i: int| list[i]@)
}

/// The values of a list of editions, in order.
pub open spec fn edition_views(list: Seq<Edition>) -> Seq<EditionView> {
    Seq::new(list.len(), |i: int| list[i]@)
}

/// The accounts of each list of a list of lists, in order.
pub open spec fn allowance_views(list: Seq<Vec<AccountId>>) -> Seq<Seq<AccountName>> {
    Seq::new(list.len(), |i: int| names(list[i]@))
}

/// The values of each list of a list of lists of bids, in order.
pub open spec fn bid_lists(list: Seq<Vec<Bid>>) -> Seq<Seq<BidView>> {
    Seq::new(list.len(), |i: int| bid_views(list[i]@))
}


/// The listings that a list of prices stands for: the edition with global
/// index `g` is listed at the price at position `g - 1`, if there is one.
pub open spec fn price_map(prices: Seq<Option<TokenPrice>>) -> Map<u64, TokenPrice> {
    Map::new(
        |g: u64| 1 <= g <= prices.len() && prices[g - 1] is Some,
        |g: u64| prices[g - 1]->0,
    )
}

/// Everything the ledger holds, as plain data. The editions, their states,
/// prices, allowances and bids are in the order of the global index.
#[derive(Debug, PartialEq, Eq)]
pub struct LedgerRecord {
    pub owner_id: AccountId,
    pub fee_receiver: AccountId,
    pub paused: bool,
    pub mint_storage_fee: Balance,
    pub edition_storage_fee: Balance,
    pub create_collection_fee: Balance,
    pub trade_fee: Balance,
    pub max_name_length: u8,
    pub max_description_length: u8,
    pub ipfs_hash_length: u8,
    pub max_editions: u8,
    pub max_external_link: u8,
    pub minters: Vec<AccountId>,
    pub tokens: Vec<Token>,
    pub metadata: Vec<Metadata>,
    pub genesis: Option<Collection>,
    pub collections: Vec<Collection>,
    pub editions: Vec<Edition>,
    pub edition_states: Vec<EditionState>,
    /// For each edition, the price at which it is listed, if it is.
    pub prices: Vec<Option<TokenPrice>>,
    pub edition_allowances: Vec<Vec<AccountId>>,
    pub offers: Vec<Vec<Bid>>,
    pub account_gives_access: Vec<EscrowRecord>,
}

impl View for LedgerRecord {
    type V = MarketState;

    open spec fn view(&self) -> MarketState {
        MarketState {
            owner_id: self.owner_id@,
            fee_receiver: self.fee_receiver@,
            paused: self.paused,
            mint_storage_fee: self.mint_storage_fee,
            edition_storage_fee: self.edition_storage_fee,
            create_collection_fee: self.create_collection_fee,
            trade_fee: self.trade_fee,
            max_name_length: self.max_name_length,
            max_description_length: self.max_description_length,
            ipfs_hash_length: self.ipfs_hash_length,
            max_editions: self.max_editions,
            max_external_link: self.max_external_link,
            minters: names(self.minters@),
            tokens: self.tokens@,
            metadata: metadata_views(self.metadata@),
            genesis: match self.genesis {
                Some(collection) => Some(collection@),
                None => None,
            },
            collections: collection_views(self.collections@),
            editions: edition_views(self.editions@),
            states: self.edition_states@,
            listings: price_map(self.prices@),
            allowances: allowance_views(self.edition_allowances@),
            bids: bid_lists(self.offers@),
            escrows: escrow_map(self.account_gives_access@),
        }
    }
}

/// Whether no account occurs twice in a list.
pub fn no_repeats(list: &Vec<AccountId>) -> (distinct: bool)
    ensures
        distinct == names(list@).no_duplicates(),
{
    let mut i: usize = 0;
    while i < list.len()
        invariant
            i <= list.len(),
            forall|a: int, b: int| 0 <= a < i && a < b < list.len() ==> list[a]@ != list[b]@,
        decreases list.len() - i,
    {
        let mut j: usize = i + 1;
        while j < list.len()
            invariant
                i < list.len(),
                i < j <= list.len(),
                forall|b: int| i < b < j ==> list[i as int]@ != list[b]@,
            decreases list.len() - j,
        {
            if list[i] == list[j] {
                proof {
                    assert(names(list@)[i as int] == names(list@)[j as int]);
                }
                return false;
            }
            j += 1;
        }
        i += 1;
    }
    proof {
        assert forall|a: int, b: int|
            0 <= a < names(list@).len() && 0 <= b < names(list@).len() && a != b implies names(
            list@,
        )[a] != names(list@)[b] by {
            if a < b {
                assert(list[a]@ != list[b]@);
            } else {
                assert(list[b]@ != list[a]@);
            }
        }
    }
    true
}

/// Whether the minters of a collection are distinct and hold its creator.
pub fn sound(collection: &Collection) -> (ok: bool)
    ensures
        ok == collection@.is_sound(),
{
    no_repeats(&collection.minters) && holds_account(&collection.minters, &collection.creator)
}

impl LedgerRecord {
    /// Whether a ledger can be made of this record: its value is
    /// consistent, every edition has its place in the list of prices, and
    /// no account has two entries of escrow grants.
    pub open spec fn consistent(&self) -> bool {
        &&& self@.inv()
        &&& self.prices.len() == self.editions.len()
        &&& one_entry_each(self.account_gives_access@)
    }

    /// Whether the sequences of the record have matching lengths.
    fn counts_agree(&self) -> (ok: bool)
        ensures
            ok == (self@.counts_agree() && self.prices.len() == self.editions.len()),
    {
        let editions = self.editions.len();
        self.metadata.len() == self.tokens.len() && self.edition_states.len() == editions
            && self.edition_allowances.len() == editions && self.offers.len() == editions
            && self.prices.len() == editions && (self.collections.len() as u64) < u64::MAX
    }

    /// Whether the tokens' blocks of global indices follow one another and
    /// hold the editions that name them.
    fn tokens_tile_editions(&self) -> (ok: bool)
        ensures
            ok == self@.tokens_tile_editions(),
    {
        let ghost s = self@;
        let count = self.tokens.len();
        let total = self.editions.len();
        let mut t: usize = 0;
        while t < count
            invariant
                s == self@,
                count == self.tokens.len(),
                total == self.editions.len(),
                t <= count,
                forall|a: int|
                    0 <= a < t ==> (#[trigger] self.tokens[a]).metadata == a
                        && self.tokens[a].edition_index + self.tokens[a].editions <= total,
                forall|a: int, b: int|
                    0 <= a < b < t ==> (#[trigger] self.tokens[a]).edition_index
                        + self.tokens[a].editions <= (#[trigger] self.tokens[b]).edition_index,
            decreases count - t,
        {
            let token = self.tokens[t];
            if token.metadata != t as u64 {
                proof {
                    assert(s.tokens[t as int] == token);
                }
                return false;
            }
            match token.edition_index.checked_add(token.editions) {
                None => {
                    proof {
                        assert(s.tokens[t as int] == token);
                    }
                    return false;
                },
                Some(end) => {
                    if end > total as u64 {
                        proof {
                            assert(s.tokens[t as int] == token);
                        }
                        return false;
                    }
                },
            }
            if t > 0 {
                let before = self.tokens[t - 1];
                if before.edition_index + before.editions > token.edition_index {
                    proof {
                        assert(s.tokens[t - 1] == before);
                        assert(s.tokens[t as int] == token);
                    }
                    return false;
                }
                proof {
                    assert forall|a: int| 0 <= a < t implies (
                    #[trigger] self.tokens[a]).edition_index + self.tokens[a].editions
                        <= token.edition_index by {
                        if a < t - 1 {
                            assert(self.tokens[a].edition_index + self.tokens[a].editions
                                <= self.tokens[t - 1].edition_index);
                        }
                    }
                }
            }
            t += 1;
        }
        let mut i: usize = 0;
        while i < total
            invariant
                s == self@,
                count == self.tokens.len(),
                total == self.editions.len(),
                i <= total,
                forall|a: int|
                    0 <= a < count ==> (#[trigger] self.tokens[a]).metadata == a
                        && self.tokens[a].edition_index + self.tokens[a].editions <= total,
                forall|a: int, b: int|
                    0 <= a < b < count ==> (#[trigger] self.tokens[a]).edition_index
                        + self.tokens[a].editions <= (#[trigger] self.tokens[b]).edition_index,
                forall|k: int|
                    0 <= k < i ==> {
                        let e = #[trigger] s.editions[k];
                        &&& e.token_id < s.tokens.len()
                        &&& s.tokens[e.token_id as int].edition_index < k + 1
                        &&& k + 1 <= s.tokens[e.token_id as int].edition_index
                            + s.tokens[e.token_id as int].editions
                        &&& e.edition_number == k + 1 - s.tokens[e.token_id as int].edition_index
                    },
            decreases total - i,
        {
            proof {
                assert(s.editions[i as int] == self.editions[i as int]@);
            }
            let token_id = self.editions[i].token_id;
            if token_id >= count as u64 {
                return false;
            }
            let token = self.tokens[token_id as usize];
            let index = i as u64 + 1;
            if !(token.edition_index < index && index <= token.edition_index + token.editions
                && self.editions[i].edition_number == index - token.edition_index) {
                return false;
            }
            i += 1;
        }
        true
    }

    /// Whether an edition has a price exactly where its state is `LISTED`.
    fn prices_match_states(&self) -> (ok: bool)
        requires
            self.prices.len() == self.editions.len(),
            self.edition_states.len() == self.editions.len(),
        ensures
            ok == self@.listings_match_states(),
    {
        let ghost s = self@;
        let mut i: usize = 0;
        while i < self.prices.len()
            invariant
                s == self@,
                self.prices.len() == self.editions.len(),
                self.edition_states.len() == self.editions.len(),
                i <= self.prices.len(),
                forall|k: int|
                    0 <= k < i ==> ((#[trigger] self.prices[k]) is Some <==> self.edition_states[k]
                        == EditionState::LISTED),
            decreases self.prices.len() - i,
        {
            let listed = match self.edition_states[i] {
                EditionState::LISTED => true,
                _ => false,
            };
            if self.prices[i].is_some() != listed {
                proof {
                    let g = (i + 1) as u64;
                    assert(s.listings.contains_key(g) == self.prices[i as int] is Some);
                    assert(s.states[g - 1] == self.edition_states[i as int]);
                }
                return false;
            }
            i += 1;
        }
        proof {
            assert forall|g: u64| #[trigger]
                s.listings.contains_key(g) <==> (1 <= g <= s.editions.len() && s.states[g - 1]
                    == EditionState::LISTED) by {
                if 1 <= g <= s.editions.len() {
                    assert(self.prices[g - 1] is Some <==> self.edition_states[g - 1]
                        == EditionState::LISTED);
                }
            }
        }
        true
    }

    /// Whether no account has two entries of escrow grants.
    fn one_entry_each(&self) -> (ok: bool)
        ensures
            ok == one_entry_each(self.account_gives_access@),
    {
        let mut i: usize = 0;
        while i < self.account_gives_access.len()
            invariant
                i <= self.account_gives_access.len(),
                forall|a: int, b: int|
                    0 <= a < i && a < b < self.account_gives_access.len() ==> (
                    #[trigger] self.account_gives_access[a]).account@ != (
                    #[trigger] self.account_gives_access[b]).account@,
            decreases self.account_gives_access.len() - i,
        {
            let mut j: usize = i + 1;
            while j < self.account_gives_access.len()
                invariant
                    i < self.account_gives_access.len(),
                    i < j <= self.account_gives_access.len(),
                    forall|b: int|
                        i < b < j ==> self.account_gives_access[i as int].account@ != (
                        #[trigger] self.account_gives_access[b]).account@,
                decreases self.account_gives_access.len() - j,
            {
                if self.account_gives_access[i].account == self.account_gives_access[j].account {
                    proof {
                        assert(self.account_gives_access@[i as int].account@
                            == self.account_gives_access@[j as int].account@);
                    }
                    return false;
                }
                j += 1;
            }
            i += 1;
        }
        true
    }

    /// Whether no account occurs twice among the minters, in an edition's
    /// allowances or in an account's escrow grants.
    fn grants_are_distinct(&self) -> (ok: bool)
        requires
            one_entry_each(self.account_gives_access@),
        ensures
            ok == self@.grants_are_distinct(),
    {
        let ghost s = self@;
        if !no_repeats(&self.minters) {
            return false;
        }
        let mut i: usize = 0;
        while i < self.edition_allowances.len()
            invariant
                s == self@,
                i <= self.edition_allowances.len(),
                forall|k: int| 0 <= k < i ==> (#[trigger] s.allowances[k]).no_duplicates(),
            decreases self.edition_allowances.len() - i,
        {
            if !no_repeats(&self.edition_allowances[i]) {
                proof {
                    assert(s.allowances[i as int] == names(self.edition_allowances[i as int]@));
                }
                return false;
            }
            proof {
                assert(s.allowances[i as int] == names(self.edition_allowances[i as int]@));
            }
            i += 1;
        }
        let mut e: usize = 0;
        while e < self.account_gives_access.len()
            invariant
                s == self@,
                one_entry_each(self.account_gives_access@),
                e <= self.account_gives_access.len(),
                forall|k: int|
                    0 <= k < e ==> names(
                        (#[trigger] self.account_gives_access[k]).delegates@,
                    ).no_duplicates(),
            decreases self.account_gives_access.len() - e,
        {
            if !no_repeats(&self.account_gives_access[e].delegates) {
                proof {
                    lemma_entry_gives_delegates(self.account_gives_access@, e as int);
                    assert(!s.escrows[self.account_gives_access[e as int].account@].no_duplicates());
                }
                return false;
            }
            e += 1;
        }
        proof {
            assert forall|a: AccountName| s.escrows.contains_key(a) implies (
            #[trigger] s.escrows[a]).no_duplicates() by {
                let k = choose|k: int| grants_of(self.account_gives_access@, a, k);
                lemma_entry_gives_delegates(self.account_gives_access@, k);
            }
        }
        true
    }

    /// Whether the minters of every collection are distinct and, but for
    /// the genesis collection, hold the collection's creator.
    fn collections_are_sound(&self) -> (ok: bool)
        ensures
            ok == self@.collections_are_sound(),
    {
        let ghost s = self@;
        match &self.genesis {
            Some(genesis) => {
                if !no_repeats(&genesis.minters) {
                    return false;
                }
            },
            None => {},
        }
        let mut i: usize = 0;
        while i < self.collections.len()
            invariant
                s == self@,
                i <= self.collections.len(),
                s.genesis matches Some(genesis) ==> genesis.minters.no_duplicates(),
                forall|k: int| 0 <= k < i ==> (#[trigger] s.collections[k]).is_sound(),
            decreases self.collections.len() - i,
        {
            proof {
                assert(s.collections[i as int] == self.collections[i as int]@);
            }
            if !sound(&self.collections[i]) {
                return false;
            }
            i += 1;
        }
        true
    }

    /// Tests whether a ledger can be made of this record.
    pub fn is_consistent(&self) -> (ok: bool)
        ensures
            ok == self.consistent(),
    {
        self.counts_agree() && self.tokens_tile_editions() && self.prices_match_states()
            && self.one_entry_each() && self.grants_are_distinct() && self.collections_are_sound()
    }
}

} // verus!
