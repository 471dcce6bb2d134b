use nft_market::{
    Collection, EditionState, EscrowRecord, LedgerRecord, MarketError, Metadata, NonFungibleToken,
    NEP4,
};

const MINT_FEE: u128 = 300_000_000_000_000_000_000_000;
const EDITION_FEE: u128 = 35_000_000_000_000_000_000_000;

fn acct(name: &str) -> String {
    name.to_string()
}

fn metadata(editions: u64) -> Metadata {
    Metadata {
        name: acct("Sunrise"),
        collection_id: 0,
        creator: String::new(),
        description: acct("A sunrise over the bay"),
        thumbnail: acct("thumb"),
        main: acct("main"),
        nft_type: acct("image"),
        file: acct("file"),
        external_link: acct("https://example.org/sunrise"),
        royalty: 2,
        editions,
        date: String::new(),
        tags: vec![acct("sun")],
    }
}

/// A record of a ledger with two tokens, a listing, an allowance, a bid and
/// an escrow grant.
fn busy_record() -> LedgerRecord {
    let owner = acct("owner.near");
    let minter = acct("minter.near");
    let mut ledger = NonFungibleToken::new(owner.clone(), acct("fees.near")).unwrap();
    ledger.generate_genesis_collection(acct("t"), &owner, 1).unwrap();
    ledger.add_minter(minter.clone(), &owner).unwrap();
    ledger.mint_token(metadata(2), &minter, MINT_FEE + 2 * EDITION_FEE, 2).unwrap();
    ledger.mint_token(metadata(1), &minter, MINT_FEE + EDITION_FEE, 3).unwrap();
    ledger.list_price(0, 2, 700, &minter).unwrap();
    ledger.grant_edition_allowance(1, 1, acct("friend.near"), &minter).unwrap();
    ledger.grant_access(acct("agent.near"), &minter).unwrap();
    ledger.offer(0, 1, &acct("bidder.near"), MINT_FEE + 5, 4).unwrap();
    ledger.into_record()
}

fn busy_record_with_collection() -> LedgerRecord {
    let mut ledger = NonFungibleToken::from_record(busy_record()).unwrap();
    let works = Collection {
        name: acct("Works"),
        description: acct("A set of works"),
        date: String::new(),
        thumbnail: "Q".repeat(46),
        creator: String::new(),
        minters: vec![acct("guest.near")],
    };
    ledger.create_collection(works, &acct("minter.near"), 2_000_000_000_000_000_000, 9).unwrap();
    ledger.into_record()
}

fn rejected(record: LedgerRecord) -> bool {
    assert!(!record.is_consistent());
    match NonFungibleToken::from_record(record) {
        Err(e) => e == MarketError::ValidationFailed,
        Ok(_) => false,
    }
}

#[test]
fn record_holds_what_the_ledger_held() {
    let record = busy_record();
    assert!(record.is_consistent());
    assert_eq!(record.owner_id, "owner.near");
    assert_eq!(record.fee_receiver, "fees.near");
    assert!(!record.paused);
    assert_eq!(record.minters, vec![acct("minter.near")]);
    assert_eq!(record.tokens.len(), 2);
    assert_eq!(record.metadata.len(), 2);
    assert_eq!(record.editions.len(), 3);
    assert_eq!(
        record.edition_states,
        vec![EditionState::AVAILABLE, EditionState::LISTED, EditionState::AVAILABLE]
    );
    assert_eq!(record.prices, vec![None, Some(700), None]);
    assert_eq!(record.edition_allowances[2], vec![acct("friend.near")]);
    assert_eq!(record.offers[0].len(), 1);
    assert_eq!(
        record.account_gives_access,
        vec![EscrowRecord { account: acct("minter.near"), delegates: vec![acct("agent.near")] }]
    );
}

#[test]
fn ledger_survives_a_round_trip_through_its_record() {
    let mut ledger = NonFungibleToken::from_record(busy_record()).unwrap();
    let minter = acct("minter.near");
    assert_eq!(ledger.get_price(0, 2), Ok(700));
    assert_eq!(ledger.get_price(0, 1), Err(MarketError::NotFound));
    assert_eq!(ledger.state_of(0, 2), Ok(EditionState::LISTED));
    assert_eq!(ledger.owner_of(1, 1).unwrap(), minter);
    assert!(ledger.check_access(minter.clone(), acct("agent.near")));
    assert_eq!(ledger.check_allowance(1, 1, acct("friend.near")), Ok(true));
    assert_eq!(ledger.get_offers(0, 1).unwrap()[0].amount, MINT_FEE + 5);
    ledger.buy(0, 2, &acct("buyer.near"), 700).unwrap();
    let again = NonFungibleToken::from_record(ledger.into_record()).unwrap();
    assert_eq!(again.owner_of(0, 2).unwrap(), "buyer.near");
    assert_eq!(again.into_record(), {
        let mut expected = busy_record();
        expected.editions[1].edition_owner = acct("buyer.near");
        expected.edition_states[1] = EditionState::AVAILABLE;
        expected.prices[1] = None;
        expected
    });
}

#[test]
fn record_with_mismatched_lengths_is_rejected() {
    let mut record = busy_record();
    record.prices.pop();
    assert!(rejected(record));
    let mut record = busy_record();
    record.edition_states.push(EditionState::AVAILABLE);
    assert!(rejected(record));
    let mut record = busy_record();
    record.metadata.pop();
    assert!(rejected(record));
    let mut record = busy_record();
    record.offers.pop();
    assert!(rejected(record));
    let mut record = busy_record();
    record.edition_allowances.push(Vec::new());
    assert!(rejected(record));
}

#[test]
fn record_with_broken_token_blocks_is_rejected() {
    let mut record = busy_record();
    record.tokens[1].edition_index = 1;
    assert!(rejected(record));
    let mut record = busy_record();
    record.tokens[0].editions = 3;
    assert!(rejected(record));
    let mut record = busy_record();
    record.tokens[1].metadata = 0;
    assert!(rejected(record));
    let mut record = busy_record();
    record.tokens[1].editions = u64::MAX;
    assert!(rejected(record));
    let mut record = busy_record();
    record.editions[2].token_id = 0;
    assert!(rejected(record));
    let mut record = busy_record();
    record.editions[1].edition_number = 1;
    assert!(rejected(record));
    let mut record = busy_record();
    record.editions[0].token_id = 2;
    assert!(rejected(record));
}

#[test]
fn record_with_a_listing_that_contradicts_the_state_is_rejected() {
    let mut record = busy_record();
    record.prices[0] = Some(5);
    assert!(rejected(record));
    let mut record = busy_record();
    record.prices[1] = None;
    assert!(rejected(record));
    let mut record = busy_record();
    record.edition_states[2] = EditionState::LISTED;
    assert!(rejected(record));
    let mut record = busy_record();
    record.edition_states[1] = EditionState::BURNED;
    assert!(rejected(record));
}

#[test]
fn record_with_repeated_grants_is_rejected() {
    let mut record = busy_record();
    record.minters.push(acct("minter.near"));
    assert!(rejected(record));
    let mut record = busy_record();
    record.edition_allowances[2].push(acct("friend.near"));
    assert!(rejected(record));
    let mut record = busy_record();
    record.account_gives_access[0].delegates.push(acct("agent.near"));
    assert!(rejected(record));
    let mut record = busy_record();
    record
        .account_gives_access
        .push(EscrowRecord { account: acct("minter.near"), delegates: Vec::new() });
    assert!(rejected(record));
    let mut record = busy_record();
    record
        .account_gives_access
        .push(EscrowRecord { account: acct("other.near"), delegates: vec![acct("agent.near")] });
    assert!(record.is_consistent());
    assert!(NonFungibleToken::from_record(record).is_ok());
}

#[test]
fn record_may_hold_a_locked_edition_which_stays_put() {
    let mut record = busy_record();
    record.edition_states[0] = EditionState::LOCKED;
    let mut ledger = NonFungibleToken::from_record(record).unwrap();
    let minter = acct("minter.near");
    assert_eq!(ledger.transfer(acct("x.near"), 0, 1, &minter), Err(MarketError::InvalidState));
    assert_eq!(ledger.burn_edition(0, 1, &minter), Err(MarketError::InvalidState));
    assert_eq!(ledger.list_price(0, 1, 5, &minter), Err(MarketError::InvalidState));
    assert_eq!(ledger.accept_offer(0, 1, 0, &minter), Err(MarketError::InvalidState));
    assert_eq!(
        ledger.offer(0, 1, &acct("late.near"), MINT_FEE + 1, 9),
        Err(MarketError::InvalidState)
    );
    assert_eq!(ledger.state_of(0, 1), Ok(EditionState::LOCKED));
    assert_eq!(ledger.owner_of(0, 1).unwrap(), minter);
}

#[test]
fn owner_of_a_locked_edition_still_tends_to_it() {
    let mut record = busy_record();
    record.edition_states[0] = EditionState::LOCKED;
    let mut ledger = NonFungibleToken::from_record(record).unwrap();
    let minter = acct("minter.near");
    let friend = acct("friend.near");
    assert_eq!(
        ledger.grant_edition_allowance(0, 1, friend.clone(), &friend),
        Err(MarketError::Unauthorized)
    );
    assert_eq!(ledger.grant_edition_allowance(0, 1, friend.clone(), &minter), Ok(()));
    assert_eq!(
        ledger.grant_edition_allowance(0, 1, friend.clone(), &minter),
        Err(MarketError::AlreadyGranted)
    );
    assert_eq!(ledger.get_allowances(0, 1).unwrap(), vec![friend.clone()]);
    assert_eq!(ledger.check_allowance(0, 1, friend.clone()), Ok(true));
    assert_eq!(ledger.check_allowance(0, 2, friend.clone()), Ok(false));
    assert_eq!(ledger.state_of(0, 1), Ok(EditionState::LOCKED));
    assert_eq!(ledger.owner_of(0, 1).unwrap(), minter);
    assert_eq!(ledger.get_price(0, 1), Err(MarketError::NotFound));

    // The allowance does not open the locked edition to a transfer.
    assert_eq!(
        ledger.transfer_from(minter.clone(), friend.clone(), 0, 1, &friend),
        Err(MarketError::InvalidState)
    );

    assert_eq!(ledger.remove_edition_allowance(0, 1, friend.clone(), &minter), Ok(()));
    assert_eq!(
        ledger.remove_edition_allowance(0, 1, friend.clone(), &minter),
        Err(MarketError::NotFound)
    );
    assert!(ledger.get_allowances(0, 1).unwrap().is_empty());

    // Taking it off the market changes nothing: it was not listed.
    assert_eq!(ledger.cancel_sale(0, 1, &friend), Err(MarketError::Unauthorized));
    assert_eq!(ledger.cancel_sale(0, 1, &minter), Ok(()));
    assert_eq!(ledger.state_of(0, 1), Ok(EditionState::LOCKED));
    let mut expected = busy_record();
    expected.edition_states[0] = EditionState::LOCKED;
    assert_eq!(ledger.into_record(), expected);
}

#[test]
fn record_with_unsound_collection_minters_is_rejected() {
    let mut ledger = NonFungibleToken::from_record(busy_record()).unwrap();
    let minter = acct("minter.near");
    let mut works = Collection {
        name: acct("Works"),
        description: acct("A set of works"),
        date: String::new(),
        thumbnail: "Q".repeat(46),
        creator: String::new(),
        minters: vec![acct("guest.near")],
    };
    works.minters.push(acct("guest.near"));
    assert_eq!(ledger.create_collection(works, &minter, 2_000_000_000_000_000_000, 9), Ok(1));
    let good = ledger.into_record();
    assert_eq!(good.collections[0].minters, vec![minter.clone(), acct("guest.near")]);
    assert!(good.is_consistent());

    let mut record = NonFungibleToken::from_record(good).unwrap().into_record();
    record.collections[0].minters.push(acct("guest.near"));
    assert!(rejected(record));
    let mut record = busy_record_with_collection();
    record.collections[0].minters.remove(0);
    assert!(rejected(record));
    let mut record = busy_record_with_collection();
    record.collections[0].creator = acct("other.near");
    assert!(rejected(record));
    let mut record = busy_record_with_collection();
    if let Some(genesis) = record.genesis.as_mut() {
        genesis.minters.push(acct("helper.near"));
    }
    assert!(record.is_consistent());
    let mut record = busy_record_with_collection();
    if let Some(genesis) = record.genesis.as_mut() {
        genesis.minters.push(acct("helper.near"));
        genesis.minters.push(acct("helper.near"));
    }
    assert!(rejected(record));
    let mut record = busy_record_with_collection();
    record.genesis = None;
    assert!(record.is_consistent());
}
