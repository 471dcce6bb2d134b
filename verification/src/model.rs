//! The entities that the ledger stores and hands out, each with the
//! mathematical value that contracts speak of.

use vstd::prelude::*;
use crate::types::{AccountId, AccountName, Balance, CollectionId, EditionNumber, TokenId};

verus! {

/// Where an edition stands in its life.
#[derive(Clone, Copy, Debug, PartialEq, Eq, Structural)]
pub enum EditionState {
    /// Owned and free to be transferred, listed or bid on.
    AVAILABLE,
    /// Offered for sale at a fixed price.
    LISTED,
    /// Withheld from every transfer and sale.
    LOCKED,
    /// Destroyed. This state is never left.
    BURNED,
}

/// What a payment that follows a sale is for.
#[derive(Clone, Copy, Debug, PartialEq, Eq, Structural)]
pub enum TransferReason {
    /// The creator's share.
    ROYALTY,
    /// The seller's proceeds.
    SALE,
    /// The platform fee.
    FEE,
    /// A payment to the platform outside a sale.
    NEARFOLIO,
}

/// How a transfer of ownership was started.
#[derive(Clone, Copy, Debug, PartialEq, Eq, Structural)]
pub enum TransferMode {
    /// By the owner.
    Direct,
    /// By an account that acts for the owner.
    Delegated,
    /// By a purchase or an accepted offer, whose own checks stand in for
    /// the permission check.
    Sale,
}

/// A token: a block of consecutively indexed editions with shared metadata.
#[derive(Clone, Copy, Debug, PartialEq, Eq, Structural)]
pub struct Token {
    /// The global edition index just before this token's first edition.
    pub edition_index: u64,
    /// How many editions the token has.
    pub editions: EditionNumber,
    /// Identifier of the token's metadata.
    pub metadata: TokenId,
}

/// One individually owned instance of a token.
#[derive(Debug, PartialEq, Eq)]
pub struct Edition {
    pub edition_number: EditionNumber,
    pub edition_owner: AccountId,
    pub token_id: TokenId,
}

/// The value of an [`Edition`].
pub struct EditionView {
    pub edition_number: EditionNumber,
    pub edition_owner: AccountName,
    pub token_id: TokenId,
}

impl View for Edition {
    type V = EditionView;

    open spec fn view(&self) -> EditionView {
        EditionView {
            edition_number: self.edition_number,
            edition_owner: self.edition_owner@,
            token_id: self.token_id,
        }
    }
}

impl Clone for Edition {
    fn clone(&self) -> (copy: Self)
        ensures
            copy@ == self@,
    {
        Edition {
            edition_number: self.edition_number,
            edition_owner: self.edition_owner.clone(),
            token_id: self.token_id,
        }
    }
}

/// A proposed purchase, kept at a stable position in its edition's list.
#[derive(Debug, PartialEq, Eq)]
pub struct Bid {
    pub bidder: AccountId,
    pub amount: Balance,
    pub date: String,
    pub executed: bool,
}

/// The value of a [`Bid`].
pub struct BidView {
    pub bidder: AccountName,
    pub amount: Balance,
    pub date: Seq<char>,
    pub executed: bool,
}

impl BidView {
    /// The terminal form of this bid: settled, with bidder and amount blanked.
    pub open spec fn closed_out(self) -> BidView {
        BidView { bidder: Seq::empty(), amount: 0, date: self.date, executed: true }
    }
}

impl View for Bid {
    type V = BidView;

    open spec fn view(&self) -> BidView {
        BidView {
            bidder: self.bidder@,
            amount: self.amount,
            date: self.date@,
            executed: self.executed,
        }
    }
}

impl Clone for Bid {
    fn clone(&self) -> (copy: Self)
        ensures
            copy@ == self@,
    {
        Bid {
            bidder: self.bidder.clone(),
            amount: self.amount,
            date: self.date.clone(),
            executed: self.executed,
        }
    }
}

/// The accounts of a list, in order.
pub open spec fn names(list: Seq<AccountId>) -> Seq<AccountName> {
    Seq::new(list.len(), |i: int| list[i]@)
}

/// The values of a list of bids, in order.
pub open spec fn bid_views(list: Seq<Bid>) -> Seq<BidView> {
    Seq::new(list.len(), |i: int| list[i]@)
}

/// Copies a list of accounts.
pub fn clone_names(list: &Vec<AccountId>) -> (copy: Vec<AccountId>)
    ensures
        names(copy@) == names(list@),
{
    let mut copy: Vec<AccountId> = Vec::new();
    let mut i: usize = 0;
    while i < list.len()
        invariant
            i <= list.len(),
            copy.len() == i,
            forall|j: int| 0 <= j < i ==> copy[j]@ == list[j]@,
        decreases list.len() - i,
    {
        copy.push(list[i].clone());
        i += 1;
    }
    assert(names(copy@) =~= names(list@));
    copy
}

/// Copies a list of bids.
pub fn clone_bids(list: &Vec<Bid>) -> (copy: Vec<Bid>)
    ensures
        bid_views(copy@) == bid_views(list@),
{
    let mut copy: Vec<Bid> = Vec::new();
    let mut i: usize = 0;
    while i < list.len()
        invariant
            i <= list.len(),
            copy.len() == i,
            forall|j: int| 0 <= j < i ==> copy[j]@ == list[j]@,
        decreases list.len() - i,
    {
        copy.push(list[i].clone());
        i += 1;
    }
    assert(bid_views(copy@) =~= bid_views(list@));
    copy
}

/// A named group of tokens with its own list of minters.
#[derive(Debug, PartialEq, Eq)]
pub struct Collection {
    pub name: String,
    pub description: String,
    pub date: String,
    pub thumbnail: String,
    pub creator: AccountId,
    pub minters: Vec<AccountId>,
}

/// The value of a [`Collection`].
pub struct CollectionView {
    pub name: Seq<char>,
    pub description: Seq<char>,
    pub date: Seq<char>,
    pub thumbnail: Seq<char>,
    pub creator: AccountName,
    pub minters: Seq<AccountName>,
}

impl CollectionView {
    /// Whether the minters are distinct and the creator is one of them.
    pub open spec fn is_sound(self) -> bool {
        self.minters.no_duplicates() && self.minters.contains(self.creator)
    }
}

impl View for Collection {
    type V = CollectionView;

    open spec fn view(&self) -> CollectionView {
        CollectionView {
            name: self.name@,
            description: self.description@,
            date: self.date@,
            thumbnail: self.thumbnail@,
            creator: self.creator@,
            minters: names(self.minters@),
        }
    }
}

impl Clone for Collection {
    fn clone(&self) -> (copy: Self)
        ensures
            copy@ == self@,
    {
        Collection {
            name: self.name.clone(),
            description: self.description.clone(),
            date: self.date.clone(),
            thumbnail: self.thumbnail.clone(),
            creator: self.creator.clone(),
            minters: clone_names(&self.minters),
        }
    }
}

/// What a token shows and how its sales are split.
#[derive(Debug, PartialEq, Eq)]
pub struct Metadata {
    pub name: String,
    pub collection_id: CollectionId,
    pub creator: String,
    pub description: String,
    pub thumbnail: String,
    pub main: String,
    pub nft_type: String,
    pub file: String,
    pub external_link: String,
    pub royalty: u32,
    pub editions: EditionNumber,
    pub date: String,
    pub tags: Vec<String>,
}

/// The value of a [`Metadata`].
pub struct MetadataView {
    pub name: Seq<char>,
    pub collection_id: CollectionId,
    pub creator: AccountName,
    pub description: Seq<char>,
    pub thumbnail: Seq<char>,
    pub main: Seq<char>,
    pub nft_type: Seq<char>,
    pub file: Seq<char>,
    pub external_link: Seq<char>,
    pub royalty: u32,
    pub editions: EditionNumber,
    pub date: Seq<char>,
    pub tags: Seq<Seq<char>>,
}

impl View for Metadata {
    type V = MetadataView;

    open spec fn view(&self) -> MetadataView {
        MetadataView {
            name: self.name@,
            collection_id: self.collection_id,
            creator: self.creator@,
            description: self.description@,
            thumbnail: self.thumbnail@,
            main: self.main@,
            nft_type: self.nft_type@,
            file: self.file@,
            external_link: self.external_link@,
            royalty: self.royalty,
            editions: self.editions,
            date: self.date@,
            tags: names(self.tags@),
        }
    }
}

impl Clone for Metadata {
    fn clone(&self) -> (copy: Self)
        ensures
            copy@ == self@,
    {
        Metadata {
            name: self.name.clone(),
            collection_id: self.collection_id,
            creator: self.creator.clone(),
            description: self.description.clone(),
            thumbnail: self.thumbnail.clone(),
            main: self.main.clone(),
            nft_type: self.nft_type.clone(),
            file: self.file.clone(),
            external_link: self.external_link.clone(),
            royalty: self.royalty,
            editions: self.editions,
            date: self.date.clone(),
            tags: clone_names(&self.tags),
        }
    }
}

/// One payment that a sale calls for.
#[derive(Debug, PartialEq, Eq)]
pub struct Payment {
    pub to: AccountId,
    pub amount: Balance,
    pub reason: TransferReason,
}

/// The value of a [`Payment`].
pub struct PaymentView {
    pub to: AccountName,
    pub amount: Balance,
    pub reason: TransferReason,
}

impl View for Payment {
    type V = PaymentView;

    open spec fn view(&self) -> PaymentView {
        PaymentView { to: self.to@, amount: self.amount, reason: self.reason }
    }
}

/// The values of a list of payments, in order.
pub open spec fn payment_views(list: Seq<Payment>) -> Seq<PaymentView> {
    Seq::new(list.len(), |i: int| list[i]@)
}

} // verus!
