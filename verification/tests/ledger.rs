use nft_market::{
    payments, settle, Collection, EditionState, MarketError, Metadata, NonFungibleToken, Payment,
    Settlement, TransferReason, NEP4,
};

const MINT_FEE: u128 = 300_000_000_000_000_000_000_000;
const EDITION_FEE: u128 = 35_000_000_000_000_000_000_000;
const COLLECTION_FEE: u128 = 2_000_000_000_000_000_000;

fn acct(name: &str) -> String {
    name.to_string()
}

fn owner() -> String {
    acct("owner.near")
}

fn metadata(editions: u64, royalty: u32, collection_id: u64) -> Metadata {
    Metadata {
        name: acct("Sunrise"),
        collection_id,
        creator: String::new(),
        description: acct("A sunrise over the bay"),
        thumbnail: acct("thumb"),
        main: acct("main"),
        nft_type: acct("image"),
        file: acct("file"),
        external_link: acct("https://example.org/sunrise"),
        royalty,
        editions,
        date: String::new(),
        tags: vec![acct("sun"), acct("bay")],
    }
}

fn collection(name: &str) -> Collection {
    Collection {
        name: acct(name),
        description: acct("A set of works"),
        date: String::new(),
        thumbnail: "Q".repeat(46),
        creator: String::new(),
        minters: Vec::new(),
    }
}

/// A ledger that is open for business, with `minter.near` whitelisted.
fn open_ledger() -> NonFungibleToken {
    let mut ledger = NonFungibleToken::new(owner(), acct("fees.near")).unwrap();
    ledger.generate_genesis_collection(acct("genesis-thumb"), &owner(), 1).unwrap();
    ledger.add_minter(acct("minter.near"), &owner()).unwrap();
    ledger
}

/// An open ledger on which `minter.near` has minted token 0 with `editions`
/// editions.
fn ledger_with_token(editions: u64, royalty: u32) -> NonFungibleToken {
    let mut ledger = open_ledger();
    let id = ledger
        .mint_token(
            metadata(editions, royalty, 0),
            &acct("minter.near"),
            MINT_FEE + EDITION_FEE * editions as u128,
            5,
        )
        .unwrap();
    assert_eq!(id, 0);
    ledger
}

fn listed_matches_ledger(ledger: &NonFungibleToken, token_id: u64, edition: u64) -> bool {
    let listed = ledger.state_of(token_id, edition).unwrap() == EditionState::LISTED;
    listed == ledger.get_price(token_id, edition).is_ok()
}

#[test]
fn new_accepts_a_valid_owner_and_rejects_an_invalid_one() {
    assert!(NonFungibleToken::new(acct("owner.near"), acct("fees.near")).is_ok());
    assert!(NonFungibleToken::new(acct("aa"), acct("fees.near")).is_ok());
    for bad in ["", "a", "Owner.near", "owner..near", "owner.near.", "-owner", "own er"] {
        match NonFungibleToken::new(acct(bad), acct("fees.near")) {
            Err(e) => assert_eq!(e, MarketError::ValidationFailed),
            Ok(_) => panic!("accepted {bad:?}"),
        }
    }
    let too_long = "a".repeat(65);
    assert!(NonFungibleToken::new(too_long, acct("fees.near")).is_err());
}

#[test]
fn from_validated_goes_by_the_flag() {
    assert!(NonFungibleToken::from_validated(acct("x"), acct("y"), true).is_ok());
    match NonFungibleToken::from_validated(acct("owner.near"), acct("y"), false) {
        Err(e) => assert_eq!(e, MarketError::ValidationFailed),
        Ok(_) => panic!("created a ledger for an owner that was not valid"),
    }
}

#[test]
fn new_ledger_is_paused_and_empty() {
    let ledger = NonFungibleToken::new(owner(), acct("fees.near")).unwrap();
    assert!(ledger.is_paused());
    assert_eq!(ledger.owner(), owner());
    assert_eq!(ledger.fee_receiver(), acct("fees.near"));
    assert_eq!(ledger.mint_fee(), MINT_FEE);
    assert_eq!(ledger.edition_fee(), EDITION_FEE);
    assert_eq!(ledger.collection_fee(), COLLECTION_FEE);
    assert_eq!(ledger.trade_fee(), 13);
    assert_eq!(ledger.max_editions(), 25);
    assert_eq!(ledger.current_supply(), 0);
    assert_eq!(ledger.total_editions(), 0);
    assert_eq!(ledger.total_collections(), 0);
    assert!(ledger.all_minters().is_empty());
    assert_eq!(ledger.get_collection(0).unwrap_err(), MarketError::NotFound);
}

#[test]
fn genesis_collection_is_created_once_and_ends_the_pause() {
    let mut ledger = NonFungibleToken::new(owner(), acct("fees.near")).unwrap();
    assert_eq!(
        ledger.generate_genesis_collection(acct("t"), &acct("mallory.near"), 1),
        Err(MarketError::Unauthorized)
    );
    assert!(ledger.is_paused());
    ledger.generate_genesis_collection(acct("t"), &owner(), 77).unwrap();
    assert!(!ledger.is_paused());
    let genesis = ledger.get_collection(0).unwrap();
    assert_eq!(genesis.name, "Nearfolio");
    assert_eq!(genesis.description, "Nearfolio default collection.");
    assert_eq!(genesis.creator, "nearfolio.near");
    assert_eq!(genesis.thumbnail, "t");
    assert_eq!(genesis.date, "77");
    assert!(genesis.minters.is_empty());
    assert_eq!(
        ledger.generate_genesis_collection(acct("t"), &owner(), 2),
        Err(MarketError::AlreadyExists)
    );
}

#[test]
fn mint_then_sell() {
    let mut ledger = ledger_with_token(1, 0);
    let minter = acct("minter.near");
    let buyer = acct("buyer.near");
    assert_eq!(ledger.owner_of(0, 1).unwrap(), minter);
    ledger.set_price(0, 1, acct("500"), &minter).unwrap();
    assert_eq!(ledger.get_price(0, 1), Ok(500));
    assert_eq!(ledger.state_of(0, 1), Ok(EditionState::LISTED));

    let due = ledger.buy(0, 1, &buyer, 500).unwrap();
    assert_eq!(ledger.owner_of(0, 1).unwrap(), buyer);
    assert_eq!(ledger.get_price(0, 1), Err(MarketError::NotFound));
    assert_eq!(ledger.state_of(0, 1), Ok(EditionState::AVAILABLE));
    let fee = 500 / 13;
    assert_eq!(
        due,
        vec![
            Payment { to: acct("fees.near"), amount: fee, reason: TransferReason::FEE },
            Payment { to: minter, amount: 500 - fee, reason: TransferReason::SALE },
        ]
    );
    assert_eq!(500 - fee, 462);
}

#[test]
fn delegated_transfer_keeps_the_escrow_grant() {
    let mut ledger = ledger_with_token(1, 0);
    let o = acct("minter.near");
    let d = acct("delegate.near");
    let x = acct("receiver.near");
    ledger.grant_access(d.clone(), &o).unwrap();
    assert!(ledger.check_access(o.clone(), d.clone()));
    assert_eq!(ledger.state_of(0, 1), Ok(EditionState::AVAILABLE));
    ledger.transfer_from(o.clone(), x.clone(), 0, 1, &d).unwrap();
    assert_eq!(ledger.owner_of(0, 1).unwrap(), x);
    assert!(ledger.is_escrow(o.clone(), d.clone()));
    assert_eq!(ledger.get_escrows(o), vec![d]);
}

#[test]
fn offer_accept_clears_state() {
    let mut ledger = ledger_with_token(1, 0);
    let o = acct("minter.near");
    let bidder = acct("bidder.near");
    ledger.set_mint_fee(acct("0"), &owner()).unwrap();
    ledger.list_price(0, 1, 1_000, &o).unwrap();
    ledger.grant_edition_allowance(0, 1, acct("friend.near"), &o).unwrap();
    let index = ledger.offer(0, 1, &bidder, 800, 42).unwrap();
    assert_eq!(index, 0);
    let bids = ledger.get_offers(0, 1).unwrap();
    assert_eq!(bids.len(), 1);
    assert_eq!(bids[0].bidder, bidder);
    assert_eq!(bids[0].amount, 800);
    assert_eq!(bids[0].date, "42");
    assert!(!bids[0].executed);

    let due = ledger.accept_offer(0, 1, 0, &o).unwrap();
    assert_eq!(ledger.owner_of(0, 1).unwrap(), bidder);
    let bids = ledger.get_offers(0, 1).unwrap();
    assert!(bids[0].executed);
    assert_eq!(bids[0].bidder, "");
    assert_eq!(bids[0].amount, 0);
    assert_eq!(bids[0].date, "42");
    assert_eq!(ledger.get_price(0, 1), Err(MarketError::NotFound));
    assert_eq!(ledger.state_of(0, 1), Ok(EditionState::AVAILABLE));
    assert!(ledger.get_allowances(0, 1).unwrap().is_empty());
    assert_eq!(
        due,
        vec![
            Payment { to: acct("fees.near"), amount: 61, reason: TransferReason::FEE },
            Payment { to: o, amount: 739, reason: TransferReason::SALE },
        ]
    );
}

#[test]
fn settlement_example() {
    let split = settle(1000, &acct("seller.near"), &acct("creator.near"), 2, 13);
    assert_eq!(split, Settlement { platform_fee: 76, royalty_fee: 462, seller_proceeds: 462 });
}

#[test]
fn settlement_by_royalty_numerator() {
    let seller = acct("seller.near");
    let creator = acct("creator.near");
    assert_eq!(
        settle(1000, &seller, &creator, 0, 13),
        Settlement { platform_fee: 76, royalty_fee: 0, seller_proceeds: 924 }
    );
    assert_eq!(
        settle(1000, &seller, &creator, 1, 13),
        Settlement { platform_fee: 76, royalty_fee: 924, seller_proceeds: 0 }
    );
    assert_eq!(
        settle(1000, &seller, &creator, 5, 13),
        Settlement { platform_fee: 76, royalty_fee: 184, seller_proceeds: 740 }
    );
    assert_eq!(
        settle(1000, &creator, &creator, 5, 13),
        Settlement { platform_fee: 76, royalty_fee: 0, seller_proceeds: 924 }
    );
    assert_eq!(
        settle(1000, &seller, &creator, 2, 1),
        Settlement { platform_fee: 1000, royalty_fee: 0, seller_proceeds: 0 }
    );
    assert_eq!(
        settle(0, &seller, &creator, 2, 13),
        Settlement { platform_fee: 0, royalty_fee: 0, seller_proceeds: 0 }
    );
}

#[test]
fn settlement_split_is_exact() {
    let seller = acct("seller.near");
    let creator = acct("creator.near");
    for gross in [0u128, 1, 12, 13, 14, 499, 500, 1000, 999_999, u128::MAX] {
        for royalty in [0u32, 1, 2, 5, 7, u32::MAX] {
            for divisor in [1u128, 2, 13, 1000, u128::MAX] {
                for who in [&seller, &creator] {
                    let s = settle(gross, who, &creator, royalty, divisor);
                    assert_eq!(s.platform_fee, gross / divisor);
                    let total = s.platform_fee as u128 + s.royalty_fee + s.seller_proceeds;
                    assert_eq!(total, gross);
                }
            }
        }
    }
}

#[test]
fn payments_skip_empty_shares() {
    let fees = acct("fees.near");
    let creator = acct("creator.near");
    let seller = acct("seller.near");
    let all = payments(
        Settlement { platform_fee: 76, royalty_fee: 462, seller_proceeds: 462 },
        &fees,
        &creator,
        &seller,
    );
    assert_eq!(
        all,
        vec![
            Payment { to: fees.clone(), amount: 76, reason: TransferReason::FEE },
            Payment { to: creator.clone(), amount: 462, reason: TransferReason::ROYALTY },
            Payment { to: seller.clone(), amount: 462, reason: TransferReason::SALE },
        ]
    );
    let only_fee = payments(
        Settlement { platform_fee: 0, royalty_fee: 0, seller_proceeds: 0 },
        &fees,
        &creator,
        &seller,
    );
    assert_eq!(only_fee, vec![Payment { to: fees, amount: 0, reason: TransferReason::FEE }]);
}

#[test]
fn royalty_of_one_gives_the_creator_everything() {
    let mut ledger = ledger_with_token(1, 1);
    let minter = acct("minter.near");
    let first = acct("first.near");
    let second = acct("second.near");
    ledger.transfer(first.clone(), 0, 1, &minter).unwrap();
    ledger.list_price(0, 1, 1000, &first).unwrap();
    let due = ledger.buy(0, 1, &second, 1000).unwrap();
    assert_eq!(
        due,
        vec![
            Payment { to: acct("fees.near"), amount: 76, reason: TransferReason::FEE },
            Payment { to: minter, amount: 924, reason: TransferReason::ROYALTY },
        ]
    );
}

#[test]
fn buy_splits_the_whole_payment_with_royalty() {
    let mut ledger = ledger_with_token(1, 2);
    let minter = acct("minter.near");
    let first = acct("first.near");
    let second = acct("second.near");
    ledger.transfer(first.clone(), 0, 1, &minter).unwrap();
    ledger.list_price(0, 1, 900, &first).unwrap();
    let due = ledger.buy(0, 1, &second, 1000).unwrap();
    assert_eq!(
        due,
        vec![
            Payment { to: acct("fees.near"), amount: 76, reason: TransferReason::FEE },
            Payment { to: minter, amount: 462, reason: TransferReason::ROYALTY },
            Payment { to: first, amount: 462, reason: TransferReason::SALE },
        ]
    );
}

#[test]
fn global_indices_are_consecutive_and_never_shared() {
    let mut ledger = ledger_with_token(3, 0);
    let minter = acct("minter.near");
    let id = ledger.mint_token(metadata(2, 0, 0), &minter, MINT_FEE + 2 * EDITION_FEE, 6).unwrap();
    assert_eq!(id, 1);
    assert_eq!(ledger.current_supply(), 2);
    assert_eq!(ledger.total_editions(), 5);
    let first = ledger.get_token(0).unwrap();
    let second = ledger.get_token(1).unwrap();
    assert_eq!((first.edition_index, first.editions, first.metadata), (0, 3, 0));
    assert_eq!((second.edition_index, second.editions, second.metadata), (3, 2, 1));
    let expected = [(0u64, 1u64), (0, 2), (0, 3), (1, 1), (1, 2)];
    for (i, (token_id, number)) in expected.iter().enumerate() {
        let by_index = ledger.edition_by_index(i as u64 + 1).unwrap();
        assert_eq!(by_index.token_id, *token_id);
        assert_eq!(by_index.edition_number, *number);
        assert_eq!(by_index, ledger.get_edition(*token_id, *number).unwrap());
    }
    assert_eq!(ledger.edition_by_index(0).unwrap_err(), MarketError::NotFound);
    assert_eq!(ledger.edition_by_index(6).unwrap_err(), MarketError::NotFound);
    // An edition number beyond a token's own count never reaches into the
    // next token's block.
    assert_eq!(ledger.owner_of(0, 4).unwrap_err(), MarketError::NotFound);
    assert_eq!(ledger.owner_of(0, 0).unwrap_err(), MarketError::NotFound);
    assert_eq!(ledger.owner_of(2, 1).unwrap_err(), MarketError::NotFound);
    // Burning does not free an index.
    ledger.burn_edition(0, 2, &minter).unwrap();
    let id = ledger.mint_token(metadata(1, 0, 0), &minter, MINT_FEE + EDITION_FEE, 7).unwrap();
    assert_eq!(id, 2);
    assert_eq!(ledger.get_token(2).unwrap().edition_index, 5);
    assert_eq!(ledger.total_editions(), 6);
}

#[test]
fn mint_stores_metadata_with_creator_and_date() {
    let ledger = ledger_with_token(2, 3);
    let stored = ledger.get_metadata(0).unwrap();
    let mut expected = metadata(2, 3, 0);
    expected.creator = acct("minter.near");
    expected.date = acct("5");
    assert_eq!(stored, expected);
    assert_eq!(ledger.get_metadata(1).unwrap_err(), MarketError::NotFound);
    for number in 1..=2 {
        let edition = ledger.get_edition(0, number).unwrap();
        assert_eq!(edition.edition_owner, "minter.near");
        assert_eq!(edition.edition_number, number);
        assert_eq!(edition.token_id, 0);
        assert_eq!(ledger.state_of(0, number), Ok(EditionState::AVAILABLE));
        assert!(ledger.get_allowances(0, number).unwrap().is_empty());
        assert!(ledger.get_offers(0, number).unwrap().is_empty());
    }
}

#[test]
fn mint_checks_deposit_limits_collection_and_minter() {
    let mut ledger = open_ledger();
    let minter = acct("minter.near");
    let due = MINT_FEE + 2 * EDITION_FEE;
    assert_eq!(
        ledger.mint_token(metadata(2, 0, 0), &minter, due - 1, 1),
        Err(MarketError::InsufficientDeposit)
    );
    assert_eq!(
        ledger.mint_token(metadata(26, 0, 0), &minter, u128::MAX, 1),
        Err(MarketError::ValidationFailed)
    );
    let mut four_tags = metadata(1, 0, 0);
    four_tags.tags.push(acct("c"));
    four_tags.tags.push(acct("d"));
    assert_eq!(
        ledger.mint_token(four_tags, &minter, due, 1),
        Err(MarketError::ValidationFailed)
    );
    let mut long_link = metadata(1, 0, 0);
    long_link.external_link = "l".repeat(101);
    assert_eq!(
        ledger.mint_token(long_link, &minter, due, 1),
        Err(MarketError::ValidationFailed)
    );
    let mut long_description = metadata(1, 0, 0);
    long_description.description = "d".repeat(251);
    assert_eq!(
        ledger.mint_token(long_description, &minter, due, 1),
        Err(MarketError::ValidationFailed)
    );
    assert_eq!(
        ledger.mint_token(metadata(2, 0, 9), &minter, due, 1),
        Err(MarketError::NotFound)
    );
    assert_eq!(
        ledger.mint_token(metadata(2, 0, 0), &acct("stranger.near"), due, 1),
        Err(MarketError::Unauthorized)
    );
    assert_eq!(ledger.current_supply(), 0);
    assert_eq!(ledger.total_editions(), 0);
    assert_eq!(ledger.mint_token(metadata(25, 0, 0), &minter, MINT_FEE + 25 * EDITION_FEE, 1), Ok(0));
    assert_eq!(ledger.mint_token(metadata(0, 0, 0), &minter, MINT_FEE, 1), Ok(1));
    assert_eq!(ledger.total_editions(), 25);
}

#[test]
fn name_length_counts_bytes_and_is_strict_for_tokens() {
    let mut ledger = open_ledger();
    let minter = acct("minter.near");
    let due = MINT_FEE + EDITION_FEE;
    let mut at_limit = metadata(1, 0, 0);
    at_limit.name = "n".repeat(30);
    assert_eq!(ledger.mint_token(at_limit, &minter, due, 1), Err(MarketError::ValidationFailed));
    let mut two_byte_letters = metadata(1, 0, 0);
    two_byte_letters.name = "é".repeat(15);
    assert_eq!(
        ledger.mint_token(two_byte_letters, &minter, due, 1),
        Err(MarketError::ValidationFailed)
    );
    let mut below = metadata(1, 0, 0);
    below.name = "n".repeat(29);
    assert_eq!(ledger.mint_token(below, &minter, due, 1), Ok(0));
    let mut fourteen = metadata(1, 0, 0);
    fourteen.name = "é".repeat(14);
    assert_eq!(ledger.mint_token(fourteen, &minter, due, 1), Ok(1));
}

#[test]
fn mint_fee_that_overflows_is_never_covered() {
    let mut ledger = open_ledger();
    ledger.set_edition_fee(u128::MAX.to_string(), &owner()).unwrap();
    assert_eq!(ledger.edition_fee(), u128::MAX);
    assert_eq!(
        ledger.mint_token(metadata(2, 0, 0), &acct("minter.near"), u128::MAX, 1),
        Err(MarketError::InsufficientDeposit)
    );
    ledger.set_mint_fee(acct("1"), &owner()).unwrap();
    assert_eq!(
        ledger.mint_token(metadata(1, 0, 0), &acct("minter.near"), u128::MAX, 1),
        Err(MarketError::InsufficientDeposit)
    );
    assert_eq!(ledger.mint_token(metadata(0, 0, 0), &acct("minter.near"), 1, 1), Ok(0));
}

#[test]
fn collections_and_their_minters() {
    let mut ledger = open_ledger();
    let minter = acct("minter.near");
    let artist = acct("artist.near");
    assert_eq!(
        ledger.create_collection(collection("Works"), &minter, COLLECTION_FEE - 1, 3),
        Err(MarketError::InsufficientDeposit)
    );
    let mut bad_thumbnail = collection("Works");
    bad_thumbnail.thumbnail = "Q".repeat(45);
    assert_eq!(
        ledger.create_collection(bad_thumbnail, &minter, COLLECTION_FEE, 3),
        Err(MarketError::ValidationFailed)
    );
    let long_name = collection(&"n".repeat(31));
    assert_eq!(
        ledger.create_collection(long_name, &minter, COLLECTION_FEE, 3),
        Err(MarketError::ValidationFailed)
    );
    assert_eq!(
        ledger.create_collection(collection("Works"), &artist, COLLECTION_FEE, 3),
        Err(MarketError::Unauthorized)
    );
    assert_eq!(ledger.total_collections(), 0);

    let name_at_limit = collection(&"n".repeat(30));
    assert_eq!(ledger.create_collection(name_at_limit, &minter, COLLECTION_FEE, 3), Ok(1));
    let mut with_guests = collection("Guests");
    with_guests.minters =
        vec![acct("guest.near"), minter.clone(), acct("guest.near"), acct("guest.near")];
    assert_eq!(ledger.create_collection(with_guests, &minter, COLLECTION_FEE, 4), Ok(2));
    assert_eq!(ledger.total_collections(), 2);
    let first = ledger.get_collection(1).unwrap();
    assert_eq!(first.creator, minter);
    assert_eq!(first.minters, vec![minter.clone()]);
    assert_eq!(first.date, "3");
    let second = ledger.get_collection(2).unwrap();
    assert_eq!(second.minters, vec![minter.clone(), acct("guest.near")]);
    assert_eq!(ledger.get_collection(3).unwrap_err(), MarketError::NotFound);

    assert_eq!(
        ledger.add_collection_minter(1, artist.clone(), &artist),
        Err(MarketError::Unauthorized)
    );
    assert_eq!(
        ledger.add_collection_minter(7, artist.clone(), &minter),
        Err(MarketError::NotFound)
    );
    ledger.add_collection_minter(1, artist.clone(), &minter).unwrap();
    assert_eq!(
        ledger.add_collection_minter(1, artist.clone(), &minter),
        Err(MarketError::AlreadyExists)
    );
    assert_eq!(ledger.get_collection(1).unwrap().minters, vec![minter.clone(), artist.clone()]);

    // Minting into a collection goes by the collection's minters, minting
    // outside one by the whitelist.
    let due = MINT_FEE + EDITION_FEE;
    assert_eq!(ledger.mint_token(metadata(1, 0, 1), &artist, due, 9), Ok(0));
    assert_eq!(
        ledger.mint_token(metadata(1, 0, 0), &artist, due, 9),
        Err(MarketError::Unauthorized)
    );
    assert_eq!(
        ledger.mint_token(metadata(1, 0, 2), &artist, due, 9),
        Err(MarketError::Unauthorized)
    );

    assert_eq!(
        ledger.remove_collection_minter(1, acct("nobody.near"), &minter),
        Err(MarketError::NotFound)
    );
    assert_eq!(
        ledger.remove_collection_minter(1, artist.clone(), &artist),
        Err(MarketError::Unauthorized)
    );
    ledger.remove_collection_minter(1, artist.clone(), &minter).unwrap();
    assert_eq!(ledger.get_collection(1).unwrap().minters, vec![minter.clone()]);
    assert_eq!(
        ledger.remove_collection_minter(1, artist.clone(), &minter),
        Err(MarketError::NotFound)
    );

    // The creator stays a minter.
    assert_eq!(
        ledger.remove_collection_minter(1, minter.clone(), &minter),
        Err(MarketError::ValidationFailed)
    );
    assert_eq!(ledger.get_collection(1).unwrap().minters, vec![minter.clone()]);

    // An account that came twice with the request is a minter once, and is
    // none after it was removed.
    let guest = acct("guest.near");
    assert_eq!(ledger.mint_token(metadata(1, 0, 2), &guest, due, 9), Ok(1));
    ledger.remove_collection_minter(2, guest.clone(), &minter).unwrap();
    assert_eq!(ledger.get_collection(2).unwrap().minters, vec![minter.clone()]);
    assert_eq!(
        ledger.mint_token(metadata(1, 0, 2), &guest, due, 9),
        Err(MarketError::Unauthorized)
    );
    assert_eq!(
        ledger.remove_collection_minter(0, acct("nearfolio.near"), &acct("nearfolio.near")),
        Err(MarketError::ValidationFailed)
    );
    assert_eq!(
        ledger.mint_token(metadata(1, 0, 1), &artist, due, 9),
        Err(MarketError::Unauthorized)
    );
}

#[test]
fn burn_is_final() {
    let mut ledger = ledger_with_token(2, 0);
    let minter = acct("minter.near");
    let other = acct("other.near");
    ledger.set_mint_fee(acct("0"), &owner()).unwrap();
    ledger.list_price(0, 1, 10, &minter).unwrap();
    ledger.grant_edition_allowance(0, 1, other.clone(), &minter).unwrap();
    assert_eq!(ledger.burn_edition(0, 1, &other), Err(MarketError::Unauthorized));
    assert_eq!(ledger.burn_edition(0, 3, &minter), Err(MarketError::NotFound));
    ledger.burn_edition(0, 1, &minter).unwrap();
    assert_eq!(ledger.state_of(0, 1), Ok(EditionState::BURNED));
    assert_eq!(ledger.get_price(0, 1), Err(MarketError::NotFound));
    assert!(ledger.get_allowances(0, 1).unwrap().is_empty());
    assert_eq!(ledger.owner_of(0, 1).unwrap(), minter);

    assert_eq!(ledger.burn_edition(0, 1, &minter), Err(MarketError::InvalidState));
    assert_eq!(ledger.transfer(other.clone(), 0, 1, &minter), Err(MarketError::InvalidState));
    assert_eq!(
        ledger.transfer_from(minter.clone(), other.clone(), 0, 1, &minter),
        Err(MarketError::InvalidState)
    );
    assert_eq!(ledger.list_price(0, 1, 10, &minter), Err(MarketError::InvalidState));
    assert_eq!(ledger.cancel_sale(0, 1, &minter), Err(MarketError::InvalidState));
    assert_eq!(ledger.offer(0, 1, &other, 800, 1), Err(MarketError::InvalidState));
    assert_eq!(ledger.buy(0, 1, &other, 800), Err(MarketError::NotFound));
    assert_eq!(
        ledger.grant_edition_allowance(0, 1, other.clone(), &minter),
        Err(MarketError::InvalidState)
    );
    assert_eq!(
        ledger.batch_list_price(0, &vec![2, 1], 10, &minter),
        Err(MarketError::InvalidState)
    );
    assert_eq!(ledger.state_of(0, 1), Ok(EditionState::BURNED));
    assert_eq!(ledger.state_of(0, 2), Ok(EditionState::AVAILABLE));
    assert_eq!(ledger.owner_of(0, 1).unwrap(), minter);
}

#[test]
fn listing_matches_state_after_every_operation() {
    let mut ledger = ledger_with_token(2, 0);
    let minter = acct("minter.near");
    let buyer = acct("buyer.near");
    assert!(listed_matches_ledger(&ledger, 0, 1));
    ledger.list_price(0, 1, 100, &minter).unwrap();
    assert_eq!(ledger.state_of(0, 1), Ok(EditionState::LISTED));
    assert!(listed_matches_ledger(&ledger, 0, 1));
    assert!(listed_matches_ledger(&ledger, 0, 2));
    ledger.list_price(0, 1, 150, &minter).unwrap();
    assert_eq!(ledger.get_price(0, 1), Ok(150));
    ledger.cancel_sale(0, 1, &minter).unwrap();
    assert_eq!(ledger.state_of(0, 1), Ok(EditionState::AVAILABLE));
    assert!(listed_matches_ledger(&ledger, 0, 1));
    ledger.cancel_sale(0, 1, &minter).unwrap();
    assert!(listed_matches_ledger(&ledger, 0, 1));
    ledger.list_price(0, 1, 100, &minter).unwrap();
    ledger.transfer(buyer.clone(), 0, 1, &minter).unwrap();
    assert_eq!(ledger.state_of(0, 1), Ok(EditionState::AVAILABLE));
    assert!(listed_matches_ledger(&ledger, 0, 1));
    ledger.list_price(0, 2, 100, &minter).unwrap();
    ledger.buy(0, 2, &buyer, 100).unwrap();
    assert!(listed_matches_ledger(&ledger, 0, 2));
    ledger.list_price(0, 2, 100, &buyer).unwrap();
    ledger.burn_edition(0, 2, &buyer).unwrap();
    assert!(listed_matches_ledger(&ledger, 0, 2));
    ledger.mint_token(metadata(1, 0, 0), &minter, MINT_FEE + EDITION_FEE, 8).unwrap();
    assert!(listed_matches_ledger(&ledger, 1, 1));
    assert!(listed_matches_ledger(&ledger, 0, 1));
    assert!(listed_matches_ledger(&ledger, 0, 2));
}

#[test]
fn every_edition_has_one_owner_throughout() {
    let mut ledger = ledger_with_token(2, 0);
    let minter = acct("minter.near");
    let a = acct("a.near");
    let b = acct("b.near");
    ledger.set_mint_fee(acct("0"), &owner()).unwrap();
    assert_eq!(ledger.owner_of(0, 1).unwrap(), minter);
    assert_eq!(ledger.owner_of(0, 2).unwrap(), minter);
    ledger.transfer(a.clone(), 0, 1, &minter).unwrap();
    assert_eq!(ledger.owner_of(0, 1).unwrap(), a);
    assert_eq!(ledger.owner_of(0, 2).unwrap(), minter);
    ledger.list_price(0, 1, 5, &a).unwrap();
    ledger.buy(0, 1, &b, 5).unwrap();
    assert_eq!(ledger.owner_of(0, 1).unwrap(), b);
    ledger.offer(0, 1, &a, 9, 1).unwrap();
    ledger.accept_offer(0, 1, 0, &b).unwrap();
    assert_eq!(ledger.owner_of(0, 1).unwrap(), a);
    ledger.burn_edition(0, 1, &a).unwrap();
    assert_eq!(ledger.owner_of(0, 1).unwrap(), a);
    assert_eq!(ledger.owner_of(0, 2).unwrap(), minter);
}

#[test]
fn executed_bid_is_terminal() {
    let mut ledger = ledger_with_token(1, 0);
    let o = acct("minter.near");
    let first = acct("first.near");
    let second = acct("second.near");
    ledger.set_mint_fee(acct("0"), &owner()).unwrap();
    assert_eq!(ledger.offer(0, 1, &first, 800, 1), Ok(0));
    assert_eq!(ledger.offer(0, 1, &second, 900, 2), Ok(1));
    assert_eq!(ledger.cancel_offer(0, 1, 1, &first), Err(MarketError::Unauthorized));
    assert_eq!(ledger.cancel_offer(0, 1, 2, &second), Err(MarketError::NotFound));
    assert_eq!(ledger.cancel_offer(0, 2, 0, &second), Err(MarketError::NotFound));
    assert_eq!(ledger.cancel_offer(0, 1, 1, &second), Ok(900 - EDITION_FEE.min(900)));
    assert_eq!(ledger.cancel_offer(0, 1, 1, &second), Err(MarketError::InvalidState));
    assert_eq!(ledger.accept_offer(0, 1, 1, &o), Err(MarketError::InvalidState));
    assert_eq!(ledger.cancel_offer(0, 1, 1, &acct("")), Err(MarketError::InvalidState));

    assert_eq!(ledger.accept_offer(0, 1, 0, &second), Err(MarketError::Unauthorized));
    ledger.accept_offer(0, 1, 0, &o).unwrap();
    assert_eq!(ledger.accept_offer(0, 1, 0, &first), Err(MarketError::InvalidState));
    assert_eq!(ledger.accept_offer(0, 1, 0, &o), Err(MarketError::InvalidState));
    assert_eq!(ledger.cancel_offer(0, 1, 0, &first), Err(MarketError::InvalidState));
    let bids = ledger.get_offers(0, 1).unwrap();
    assert_eq!(bids.len(), 2);
    assert!(bids.iter().all(|bid| bid.executed && bid.bidder.is_empty() && bid.amount == 0));
}

#[test]
fn cancelled_offer_pays_back_all_but_the_edition_fee() {
    let mut ledger = ledger_with_token(1, 0);
    let bidder = acct("bidder.near");
    let amount = MINT_FEE + 1;
    assert_eq!(ledger.offer(0, 1, &bidder, amount, 1), Ok(0));
    assert_eq!(ledger.cancel_offer(0, 1, 0, &bidder), Ok(amount - EDITION_FEE));
    ledger.set_mint_fee(acct("0"), &owner()).unwrap();
    assert_eq!(ledger.offer(0, 1, &bidder, EDITION_FEE, 1), Ok(1));
    assert_eq!(ledger.cancel_offer(0, 1, 1, &bidder), Ok(0));
    assert_eq!(ledger.offer(0, 1, &bidder, EDITION_FEE + 1, 1), Ok(2));
    assert_eq!(ledger.cancel_offer(0, 1, 2, &bidder), Ok(1));
}

#[test]
fn offer_checks_pause_floor_and_self_dealing() {
    let mut ledger = ledger_with_token(1, 0);
    let minter = acct("minter.near");
    let bidder = acct("bidder.near");
    assert_eq!(ledger.offer(0, 1, &bidder, MINT_FEE, 1), Err(MarketError::InsufficientDeposit));
    assert_eq!(ledger.offer(0, 1, &minter, MINT_FEE + 1, 1), Err(MarketError::SelfDealing));
    assert_eq!(ledger.offer(0, 9, &bidder, MINT_FEE + 1, 1), Err(MarketError::NotFound));
    ledger.pause(&owner()).unwrap();
    assert_eq!(ledger.offer(0, 1, &bidder, MINT_FEE + 1, 1), Err(MarketError::Paused));
    assert!(ledger.get_offers(0, 1).unwrap().is_empty());
    ledger.unpause(&owner()).unwrap();
    assert_eq!(ledger.offer(0, 1, &bidder, MINT_FEE + 1, 1), Ok(0));
}

#[test]
fn transfers_are_gated_by_pause_owner_and_permission() {
    let mut ledger = ledger_with_token(2, 0);
    let o = acct("minter.near");
    let d = acct("delegate.near");
    let x = acct("x.near");
    assert_eq!(ledger.transfer(x.clone(), 0, 1, &d), Err(MarketError::Unauthorized));
    assert_eq!(ledger.transfer(x.clone(), 5, 1, &o), Err(MarketError::NotFound));
    assert_eq!(
        ledger.transfer_from(o.clone(), x.clone(), 0, 1, &d),
        Err(MarketError::Unauthorized)
    );
    assert_eq!(
        ledger.transfer_from(d.clone(), x.clone(), 0, 1, &d),
        Err(MarketError::Unauthorized)
    );
    ledger.pause(&owner()).unwrap();
    assert_eq!(ledger.transfer(x.clone(), 0, 1, &o), Err(MarketError::Paused));
    ledger.unpause(&owner()).unwrap();
    assert_eq!(ledger.owner_of(0, 1).unwrap(), o);

    // The owner may use either entry point.
    ledger.transfer_from(o.clone(), x.clone(), 0, 2, &o).unwrap();
    assert_eq!(ledger.owner_of(0, 2).unwrap(), x);

    assert_eq!(ledger.is_authorized(&o, &o, 1), Ok(true));
    assert_eq!(ledger.is_authorized(&o, &d, 1), Ok(false));
    assert_eq!(ledger.is_authorized(&o, &d, 0), Err(MarketError::NotFound));
    assert_eq!(ledger.is_authorized(&o, &d, 3), Err(MarketError::NotFound));

    // An allowance opens one edition only and is used up by the transfer.
    ledger.grant_edition_allowance(0, 1, d.clone(), &o).unwrap();
    assert_eq!(ledger.check_allowance(0, 1, d.clone()), Ok(true));
    assert_eq!(ledger.check_allowance(0, 2, d.clone()), Ok(false));
    assert_eq!(ledger.is_authorized(&o, &d, 1), Ok(true));
    assert_eq!(ledger.is_authorized(&x, &d, 2), Ok(false));
    ledger.grant_access(d.clone(), &x).unwrap();
    assert_eq!(ledger.is_authorized(&x, &d, 2), Ok(true));
    ledger.revoke_access(d.clone(), &x);
    assert_eq!(ledger.check_allowance(0, 3, d.clone()), Err(MarketError::NotFound));
    assert_eq!(
        ledger.transfer_from(x.clone(), d.clone(), 0, 2, &d),
        Err(MarketError::Unauthorized)
    );
    ledger.transfer_from(o.clone(), x.clone(), 0, 1, &d).unwrap();
    assert_eq!(ledger.owner_of(0, 1).unwrap(), x);
    assert_eq!(ledger.check_allowance(0, 1, d.clone()), Ok(false));
    assert_eq!(
        ledger.transfer_from(x.clone(), o.clone(), 0, 1, &d),
        Err(MarketError::Unauthorized)
    );
}

#[test]
fn escrow_grants_and_revocations() {
    let mut ledger = open_ledger();
    let o = acct("o.near");
    let d = acct("d.near");
    let e = acct("e.near");
    assert!(!ledger.check_access(o.clone(), d.clone()));
    assert!(ledger.get_escrows(o.clone()).is_empty());
    ledger.revoke_access(d.clone(), &o);
    assert_eq!(ledger.grant_access(d.clone(), &o), Ok(()));
    assert_eq!(ledger.grant_access(d.clone(), &o), Err(MarketError::AlreadyGranted));
    assert_eq!(ledger.grant_access(e.clone(), &o), Ok(()));
    assert_eq!(ledger.grant_access(o.clone(), &d), Ok(()));
    assert_eq!(ledger.get_escrows(o.clone()), vec![d.clone(), e.clone()]);
    assert_eq!(ledger.get_escrows(d.clone()), vec![o.clone()]);
    assert!(!ledger.check_access(d.clone(), e.clone()));
    ledger.revoke_access(d.clone(), &o);
    assert!(!ledger.check_access(o.clone(), d.clone()));
    assert!(ledger.check_access(o.clone(), e.clone()));
    assert_eq!(ledger.get_escrows(o.clone()), vec![e]);
    ledger.revoke_access(d.clone(), &o);
    assert_eq!(ledger.grant_access(d.clone(), &o), Ok(()));
}

#[test]
fn allowances_are_granted_and_removed_by_the_owner() {
    let mut ledger = ledger_with_token(1, 0);
    let o = acct("minter.near");
    let a = acct("a.near");
    let b = acct("b.near");
    assert_eq!(
        ledger.grant_edition_allowance(0, 1, a.clone(), &a),
        Err(MarketError::Unauthorized)
    );
    assert_eq!(
        ledger.grant_edition_allowance(0, 2, a.clone(), &o),
        Err(MarketError::NotFound)
    );
    ledger.grant_edition_allowance(0, 1, a.clone(), &o).unwrap();
    assert_eq!(
        ledger.grant_edition_allowance(0, 1, a.clone(), &o),
        Err(MarketError::AlreadyGranted)
    );
    ledger.grant_edition_allowance(0, 1, b.clone(), &o).unwrap();
    assert_eq!(ledger.get_allowances(0, 1).unwrap(), vec![a.clone(), b.clone()]);
    assert_eq!(
        ledger.remove_edition_allowance(0, 1, acct("c.near"), &o),
        Err(MarketError::NotFound)
    );
    assert_eq!(
        ledger.remove_edition_allowance(0, 1, a.clone(), &a),
        Err(MarketError::Unauthorized)
    );
    ledger.remove_edition_allowance(0, 1, a.clone(), &o).unwrap();
    assert_eq!(ledger.get_allowances(0, 1).unwrap(), vec![b]);
    assert_eq!(ledger.check_allowance(0, 1, a), Ok(false));
    assert_eq!(ledger.get_allowances(0, 2).unwrap_err(), MarketError::NotFound);
}

#[test]
fn prices_are_read_from_decimal_strings() {
    let mut ledger = ledger_with_token(3, 0);
    let o = acct("minter.near");
    ledger.set_price(0, 1, acct("500"), &o).unwrap();
    assert_eq!(ledger.get_price(0, 1), Ok(500));
    ledger.set_price(0, 1, acct("+7"), &o).unwrap();
    assert_eq!(ledger.get_price(0, 1), Ok(7));
    ledger.set_price(0, 2, acct("0012"), &o).unwrap();
    assert_eq!(ledger.get_price(0, 2), Ok(12));
    ledger.set_price(0, 2, u128::MAX.to_string(), &o).unwrap();
    assert_eq!(ledger.get_price(0, 2), Ok(u128::MAX));
    for bad in ["", "+", "-1", "12a", " 12", "1_000", "1.5", "340282366920938463463374607431768211456"] {
        assert_eq!(ledger.set_price(0, 3, acct(bad), &o), Err(MarketError::ValidationFailed));
    }
    assert_eq!(ledger.get_price(0, 3), Err(MarketError::NotFound));
    assert_eq!(ledger.state_of(0, 3), Ok(EditionState::AVAILABLE));
    assert_eq!(ledger.set_price(0, 3, acct("5"), &acct("x.near")), Err(MarketError::Unauthorized));
    assert_eq!(ledger.set_price(0, 4, acct("5"), &o), Err(MarketError::NotFound));
}

#[test]
fn batch_listing_is_all_or_nothing() {
    let mut ledger = ledger_with_token(3, 0);
    let o = acct("minter.near");
    let x = acct("x.near");
    assert_eq!(
        ledger.batch_set_price(0, vec![], acct("5"), &o),
        Err(MarketError::ValidationFailed)
    );
    assert_eq!(
        ledger.batch_set_price(0, vec![1, 2], acct("five"), &o),
        Err(MarketError::ValidationFailed)
    );
    assert_eq!(
        ledger.batch_set_price(0, vec![1, 4, 2], acct("5"), &o),
        Err(MarketError::NotFound)
    );
    ledger.transfer(x.clone(), 0, 2, &o).unwrap();
    assert_eq!(
        ledger.batch_set_price(0, vec![1, 2, 7], acct("5"), &o),
        Err(MarketError::Unauthorized)
    );
    for number in 1..=3 {
        assert_eq!(ledger.state_of(0, number), Ok(EditionState::AVAILABLE));
        assert_eq!(ledger.get_price(0, number), Err(MarketError::NotFound));
    }
    ledger.batch_set_price(0, vec![3, 1, 3], acct("5"), &o).unwrap();
    assert_eq!(ledger.get_price(0, 1), Ok(5));
    assert_eq!(ledger.get_price(0, 3), Ok(5));
    assert_eq!(ledger.get_price(0, 2), Err(MarketError::NotFound));
    assert_eq!(ledger.state_of(0, 1), Ok(EditionState::LISTED));
    assert_eq!(ledger.state_of(0, 2), Ok(EditionState::AVAILABLE));
    assert_eq!(ledger.state_of(0, 3), Ok(EditionState::LISTED));
}

#[test]
fn buy_checks_listing_payment_buyer_pause_and_divisor() {
    let mut ledger = ledger_with_token(2, 0);
    let o = acct("minter.near");
    let b = acct("buyer.near");
    assert_eq!(ledger.buy(0, 1, &b, 500), Err(MarketError::NotFound));
    assert_eq!(ledger.buy(3, 1, &b, 500), Err(MarketError::NotFound));
    ledger.list_price(0, 1, 500, &o).unwrap();
    assert_eq!(ledger.buy(0, 1, &b, 499), Err(MarketError::InsufficientDeposit));
    assert_eq!(ledger.buy(0, 1, &o, 500), Err(MarketError::SelfDealing));
    ledger.pause(&owner()).unwrap();
    assert_eq!(ledger.buy(0, 1, &b, 500), Err(MarketError::Paused));
    ledger.unpause(&owner()).unwrap();
    ledger.set_trade_fee(0, &owner()).unwrap();
    assert_eq!(ledger.buy(0, 1, &b, 500), Err(MarketError::ValidationFailed));
    assert_eq!(ledger.owner_of(0, 1).unwrap(), o);
    assert_eq!(ledger.get_price(0, 1), Ok(500));
    ledger.set_trade_fee(10, &owner()).unwrap();
    let due = ledger.buy(0, 1, &b, 505).unwrap();
    assert_eq!(due[0].amount, 50);
    assert_eq!(due[1].amount, 455);
}

#[test]
fn owner_only_settings() {
    let mut ledger = open_ledger();
    let stranger = acct("stranger.near");
    assert_eq!(ledger.add_minter(stranger.clone(), &stranger), Err(MarketError::Unauthorized));
    assert_eq!(ledger.remove_minter(acct("minter.near"), &stranger), Err(MarketError::Unauthorized));
    assert_eq!(ledger.pause(&stranger), Err(MarketError::Unauthorized));
    assert_eq!(ledger.unpause(&stranger), Err(MarketError::Unauthorized));
    assert_eq!(ledger.set_mint_fee(acct("1"), &stranger), Err(MarketError::Unauthorized));
    assert_eq!(ledger.set_mint_fee(acct("x"), &stranger), Err(MarketError::Unauthorized));
    assert_eq!(ledger.set_edition_fee(acct("1"), &stranger), Err(MarketError::Unauthorized));
    assert_eq!(ledger.set_collection_fee(acct("1"), &stranger), Err(MarketError::Unauthorized));
    assert_eq!(ledger.set_collection_fee(acct("1 "), &owner()), Err(MarketError::ValidationFailed));
    assert_eq!(ledger.collection_fee(), COLLECTION_FEE);
    assert_eq!(ledger.set_max_edition(1, &stranger), Err(MarketError::Unauthorized));
    assert_eq!(ledger.set_trade_fee(1, &stranger), Err(MarketError::Unauthorized));
    assert_eq!(ledger.mint_fee(), MINT_FEE);
    assert_eq!(ledger.set_mint_fee(acct("x"), &owner()), Err(MarketError::ValidationFailed));
    assert_eq!(ledger.set_edition_fee(acct(""), &owner()), Err(MarketError::ValidationFailed));

    ledger.set_mint_fee(acct("11"), &owner()).unwrap();
    ledger.set_edition_fee(acct("22"), &owner()).unwrap();
    ledger.set_collection_fee(acct("33"), &owner()).unwrap();
    assert_eq!(ledger.collection_fee(), 33);
    assert_eq!(
        ledger.create_collection(collection("Works"), &acct("minter.near"), 32, 1),
        Err(MarketError::InsufficientDeposit)
    );
    assert_eq!(ledger.create_collection(collection("Works"), &acct("minter.near"), 33, 1), Ok(1));
    ledger.set_max_edition(2, &owner()).unwrap();
    ledger.set_trade_fee(4, &owner()).unwrap();
    assert_eq!(ledger.mint_fee(), 11);
    assert_eq!(ledger.edition_fee(), 22);
    assert_eq!(ledger.max_editions(), 2);
    assert_eq!(ledger.trade_fee(), 4);
    assert_eq!(
        ledger.mint_token(metadata(3, 0, 0), &acct("minter.near"), 1_000, 1),
        Err(MarketError::ValidationFailed)
    );
    assert_eq!(ledger.mint_token(metadata(2, 0, 0), &acct("minter.near"), 55, 1), Ok(0));
    assert_eq!(
        ledger.mint_token(metadata(2, 0, 0), &acct("minter.near"), 54, 1),
        Err(MarketError::InsufficientDeposit)
    );
}

#[test]
fn minter_whitelist() {
    let mut ledger = open_ledger();
    let a = acct("a.near");
    assert!(ledger.is_minter(acct("minter.near")));
    assert!(!ledger.is_minter(a.clone()));
    ledger.add_minter(a.clone(), &owner()).unwrap();
    ledger.add_minter(a.clone(), &owner()).unwrap();
    assert_eq!(ledger.all_minters(), vec![acct("minter.near"), a.clone()]);
    assert_eq!(ledger.remove_minter(acct("b.near"), &owner()), Err(MarketError::NotFound));
    ledger.remove_minter(acct("minter.near"), &owner()).unwrap();
    assert_eq!(ledger.all_minters(), vec![a]);
    assert!(!ledger.is_minter(acct("minter.near")));
}

#[test]
fn bid_keys_are_written_in_decimal() {
    let ledger = open_ledger();
    assert_eq!(ledger.gen_token_x_edition(12, 3), "12::3");
    assert_eq!(ledger.gen_token_x_edition(0, 0), "0::0");
    assert_eq!(
        ledger.gen_token_x_edition(u64::MAX, 100),
        "18446744073709551615::100"
    );
}

#[test]
fn the_four_states() {
    let ledger = open_ledger();
    assert_eq!(
        ledger.get_states(),
        vec![
            EditionState::AVAILABLE,
            EditionState::LISTED,
            EditionState::LOCKED,
            EditionState::BURNED,
        ]
    );
}
