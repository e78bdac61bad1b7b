use market_unic::auction_callback::SaleArgs;
use market_unic::auction_execute::Auction;
use market_unic::contract::Contract;
use market_unic::{listing_key, MarketError, ENROLL_FEE, STORAGE_PER_SALE};

fn s(text: &str) -> String {
    text.to_string()
}

/// One paid listing slot for an owner with no listings yet.
const ONE_SLOT: u128 = STORAGE_PER_SALE;

fn create_auction(
    c: &mut Contract,
    registry: &str,
    token: &str,
    owner: &str,
    price: u128,
    start_time: u64,
    end_time: u64,
) -> Result<(), MarketError> {
    let supply = c.get_supply_by_owner_id(&s(owner));
    c.on_create_auction(
        s(token),
        s(owner),
        7,
        start_time,
        end_time,
        Some(SaleArgs { sale_conditions: price }),
        s(registry),
        s(owner),
        (supply + 1) * STORAGE_PER_SALE,
    )
}

#[test]
fn key_joins_registry_and_token() {
    assert_eq!(listing_key(&s("nft.test"), &s("token-1")), s("nft.test.token-1"));
}

#[test]
fn create_inserts_listing_and_indices() {
    let mut c = Contract::new();
    assert_eq!(create_auction(&mut c, "nft", "tok", "alice", 100, 1, 100), Ok(()));
    let key = listing_key(&s("nft"), &s("tok"));
    let a = c.auctions.get(&key).expect("auction stored");
    assert_eq!(a.owner_id, s("alice"));
    assert_eq!(a.auction_id, 7);
    assert_eq!(a.sale_conditions, 100);
    assert_eq!(a.start_time, 1_000_000_000);
    assert_eq!(a.end_time, 100_000_000_000);
    assert!(a.winner.is_none());
    assert!(!a.is_near_claimed);
    assert!(!a.is_nft_claimed);
    let owner_set = c.by_auction_owner_id.get(&s("alice")).expect("owner indexed");
    assert!(owner_set.contains(&key));
    let reg_set = c.auctions_by_nft_contract_id.get(&s("nft")).expect("registry indexed");
    assert!(reg_set.contains(&key));
    assert_eq!(c.get_supply_by_owner_id(&s("alice")), 1);
}

#[test]
fn create_rejects_direct_calls() {
    let mut c = Contract::new();
    let r = c.on_create_auction(
        s("tok"),
        s("alice"),
        7,
        1,
        100,
        Some(SaleArgs { sale_conditions: 100 }),
        s("alice"),
        s("alice"),
        ONE_SLOT,
    );
    assert_eq!(r, Err(MarketError::NotRegistryCall));
}

#[test]
fn create_rejects_third_party_listing() {
    let mut c = Contract::new();
    let r = c.on_create_auction(
        s("tok"),
        s("alice"),
        7,
        1,
        100,
        Some(SaleArgs { sale_conditions: 100 }),
        s("nft"),
        s("mallory"),
        ONE_SLOT,
    );
    assert_eq!(r, Err(MarketError::WrongOwner));
}

#[test]
fn create_rejects_insufficient_storage() {
    let mut c = Contract::new();
    let r = c.on_create_auction(
        s("tok"),
        s("alice"),
        7,
        1,
        100,
        Some(SaleArgs { sale_conditions: 100 }),
        s("nft"),
        s("alice"),
        ONE_SLOT - 1,
    );
    assert_eq!(r, Err(MarketError::InsufficientStorage));
    assert!(c.auctions.get(&listing_key(&s("nft"), &s("tok"))).is_none());
}

#[test]
fn create_rejects_storage_for_second_listing() {
    let mut c = Contract::new();
    assert_eq!(create_auction(&mut c, "nft", "tok1", "alice", 100, 1, 100), Ok(()));
    let r = c.on_create_auction(
        s("tok2"),
        s("alice"),
        8,
        1,
        100,
        Some(SaleArgs { sale_conditions: 100 }),
        s("nft"),
        s("alice"),
        2 * ONE_SLOT - 1,
    );
    assert_eq!(r, Err(MarketError::InsufficientStorage));
}

#[test]
fn create_rejects_malformed_payload() {
    let mut c = Contract::new();
    let r = c.on_create_auction(s("tok"), s("alice"), 7, 1, 100, None, s("nft"), s("alice"), ONE_SLOT);
    assert_eq!(r, Err(MarketError::BadPayload));
}

#[test]
fn create_rejects_degenerate_window() {
    let mut c = Contract::new();
    let r = c.on_create_auction(
        s("tok"),
        s("alice"),
        7,
        100,
        100,
        Some(SaleArgs { sale_conditions: 100 }),
        s("nft"),
        s("alice"),
        ONE_SLOT,
    );
    assert_eq!(r, Err(MarketError::BadTimeWindow));
}

#[test]
fn create_rejects_duplicate_key() {
    let mut c = Contract::new();
    assert_eq!(create_auction(&mut c, "nft", "tok", "alice", 100, 1, 100), Ok(()));
    let r = create_auction(&mut c, "nft", "tok", "alice", 200, 1, 100);
    assert_eq!(r, Err(MarketError::AlreadyListed));
}

#[test]
fn bid_errors() {
    let mut c = Contract::new();
    assert_eq!(create_auction(&mut c, "nft", "tok", "alice", 100, 1, 100), Ok(()));
    let now: u64 = 50_000_000_000;
    let r = c.offer_bid(s("nft"), s("missing"), s("bob"), 150, now);
    assert_eq!(r, Err(MarketError::NoAuction));
    let r = c.offer_bid(s("nft"), s("tok"), s("bob"), 150, 1_000_000_000);
    assert_eq!(r, Err(MarketError::AuctionNotStarted));
    let r = c.offer_bid(s("nft"), s("tok"), s("bob"), 150, 100_000_000_000);
    assert_eq!(r, Err(MarketError::AuctionAlreadyDone));
    let r = c.offer_bid(s("nft"), s("tok"), s("bob"), 100, now);
    assert_eq!(r, Err(MarketError::BidTooLow));
    let r = c.offer_bid(s("nft"), s("tok"), s("alice"), 150, now);
    assert_eq!(r, Err(MarketError::OwnListing));
    // Nothing was mutated by the rejected bids.
    let key = listing_key(&s("nft"), &s("tok"));
    let a = c.auctions.get(&key).expect("auction still stored");
    assert_eq!(a.sale_conditions, 100);
    assert!(a.winner.is_none());
}

#[test]
fn bid_below_fee_is_rejected() {
    let mut c = Contract::new();
    assert_eq!(create_auction(&mut c, "nft", "tok", "alice", 2, 1, 100), Ok(()));
    let r = c.offer_bid(s("nft"), s("tok"), s("bob"), ENROLL_FEE - 1, 50_000_000_000);
    assert_eq!(r, Err(MarketError::BidBelowFee));
}

#[test]
fn ascending_bids_refund_previous_leader() {
    // Auction at price 100; B bids 150 (no refund yet), C bids 200
    // (B refunded 150 less the fee); leader and price follow the bids.
    let mut c = Contract::new();
    assert_eq!(create_auction(&mut c, "nft", "tok", "alice", 100, 1, 100), Ok(()));
    let now: u64 = 50_000_000_000;
    let key = listing_key(&s("nft"), &s("tok"));

    let refund = c.offer_bid(s("nft"), s("tok"), s("bob"), 150, now).expect("bid accepted");
    assert!(refund.is_none());
    let a = c.auctions.get(&key).expect("stored");
    assert_eq!(a.winner.as_ref().expect("leader"), &s("bob"));
    assert_eq!(a.sale_conditions, 150);

    let refund = c.offer_bid(s("nft"), s("tok"), s("carol"), 200, now).expect("bid accepted");
    let t = refund.expect("previous leader refunded");
    assert_eq!(t.to, s("bob"));
    assert_eq!(t.amount, 150 - ENROLL_FEE);
    let a = c.auctions.get(&key).expect("stored");
    assert_eq!(a.winner.as_ref().expect("leader"), &s("carol"));
    assert_eq!(a.sale_conditions, 200);
}

#[test]
fn cancel_refunds_leader_and_clears_indices() {
    // A leader bidding 300 is refunded 300 less the fee; the listing and
    // both index entries go, and the owner's emptied key set is dropped.
    let mut c = Contract::new();
    assert_eq!(create_auction(&mut c, "nft", "tok", "alice", 100, 1, 100), Ok(()));
    let r = c.offer_bid(s("nft"), s("tok"), s("bob"), 300, 50_000_000_000);
    assert!(r.is_ok());
    let refund = c
        .remove_auction(s("nft"), s("tok"), s("alice"), 1)
        .expect("cancel accepted");
    let t = refund.expect("leader refunded");
    assert_eq!(t.to, s("bob"));
    assert_eq!(t.amount, 300 - ENROLL_FEE);
    let key = listing_key(&s("nft"), &s("tok"));
    assert!(c.auctions.get(&key).is_none());
    assert!(c.by_auction_owner_id.get(&s("alice")).is_none());
    assert!(c.auctions_by_nft_contract_id.get(&s("nft")).is_none());
    assert_eq!(c.get_supply_by_owner_id(&s("alice")), 0);
}

#[test]
fn cancel_errors() {
    let mut c = Contract::new();
    assert_eq!(create_auction(&mut c, "nft", "tok", "alice", 100, 1, 100), Ok(()));
    let r = c.remove_auction(s("nft"), s("tok"), s("alice"), 0);
    assert_eq!(r, Err(MarketError::BadDeposit));
    let r = c.remove_auction(s("nft"), s("missing"), s("alice"), 1);
    assert_eq!(r, Err(MarketError::NoAuction));
    let r = c.remove_auction(s("nft"), s("tok"), s("mallory"), 1);
    assert_eq!(r, Err(MarketError::NotOwner));
    assert!(c.auctions.get(&listing_key(&s("nft"), &s("tok"))).is_some());
}

#[test]
fn cancel_keeps_other_listings_of_owner() {
    let mut c = Contract::new();
    assert_eq!(create_auction(&mut c, "nft", "tok1", "alice", 100, 1, 100), Ok(()));
    assert_eq!(create_auction(&mut c, "nft", "tok2", "alice", 100, 1, 100), Ok(()));
    assert_eq!(c.get_supply_by_owner_id(&s("alice")), 2);
    let r = c.remove_auction(s("nft"), s("tok1"), s("alice"), 1);
    assert!(r.is_ok());
    let owner_set = c.by_auction_owner_id.get(&s("alice")).expect("set kept");
    assert!(!owner_set.contains(&listing_key(&s("nft"), &s("tok1"))));
    assert!(owner_set.contains(&listing_key(&s("nft"), &s("tok2"))));
    assert_eq!(c.get_supply_by_owner_id(&s("alice")), 1);
}

#[test]
fn internal_remove_auction_returns_record() {
    let mut c = Contract::new();
    assert_eq!(create_auction(&mut c, "nft", "tok", "alice", 100, 1, 100), Ok(()));
    let a = c.internal_remove_auction(s("nft"), s("tok"));
    assert_eq!(a.owner_id, s("alice"));
    assert_eq!(a.auction_token, s("tok"));
    assert_eq!(a.nft_contract_id, s("nft"));
    assert_eq!(a.sale_conditions, 100);
    assert!(c.auctions.get(&listing_key(&s("nft"), &s("tok"))).is_none());
    assert!(c.by_auction_owner_id.get(&s("alice")).is_none());
}

#[test]
fn purchase_errors() {
    let mut c = Contract::new();
    assert_eq!(create_auction(&mut c, "nft", "tok", "alice", 100, 1, 100), Ok(()));
    let after_end: u64 = 101_000_000_000;
    let r = c.process_auction_purchase(s("nft"), s("missing"), 200, after_end);
    assert_eq!(r.unwrap_err(), MarketError::NoAuction);
    let r = c.process_auction_purchase(s("nft"), s("tok"), 200, after_end);
    assert_eq!(r.unwrap_err(), MarketError::NoWinner);
    let r = c.offer_bid(s("nft"), s("tok"), s("bob"), 200, 50_000_000_000);
    assert!(r.is_ok());
    let r = c.process_auction_purchase(s("nft"), s("tok"), 200, 60_000_000_000);
    assert_eq!(r.unwrap_err(), MarketError::AuctionNotOver);
    let r = c.process_auction_purchase(s("nft"), s("tok"), 199, after_end);
    assert_eq!(r.unwrap_err(), MarketError::DepositTooLow);
}

#[test]
fn purchase_rejects_claimed_listing() {
    let mut c = Contract::new();
    let key = listing_key(&s("nft"), &s("tok"));
    c.auctions.insert(
        key,
        Auction {
            owner_id: s("alice"),
            auction_id: 7,
            nft_contract_id: s("nft"),
            auction_token: s("tok"),
            sale_conditions: 200,
            start_time: 1_000_000_000,
            end_time: 100_000_000_000,
            winner: Some(s("bob")),
            is_near_claimed: false,
            is_nft_claimed: true,
        },
    );
    let r = c.process_auction_purchase(s("nft"), s("tok"), 200, 101_000_000_000);
    assert_eq!(r.unwrap_err(), MarketError::AlreadyClaimed);
}

#[test]
fn purchase_removes_listing_and_builds_request() {
    let mut c = Contract::new();
    assert_eq!(create_auction(&mut c, "nft", "tok", "alice", 100, 1, 100), Ok(()));
    let r = c.offer_bid(s("nft"), s("tok"), s("carol"), 200, 50_000_000_000);
    assert!(r.is_ok());
    let req = c
        .process_auction_purchase(s("nft"), s("tok"), 200, 101_000_000_000)
        .expect("purchase accepted");
    assert_eq!(req.buyer_id, s("carol"));
    assert_eq!(req.token_id, s("tok"));
    assert_eq!(req.approval_id, 7);
    assert_eq!(req.memo, s("payout from market"));
    assert_eq!(req.price, 200);
    assert_eq!(req.max_len_payout, 10);
    assert_eq!(req.nft_contract_id, s("nft"));
    let key = listing_key(&s("nft"), &s("tok"));
    assert!(c.auctions.get(&key).is_none());
    assert!(c.by_auction_owner_id.get(&s("alice")).is_none());
    assert!(c.auctions_by_nft_contract_id.get(&s("nft")).is_none());
}

#[test]
fn second_purchase_fails_not_found() {
    // Settlement exactly-once: phase one removes the key, so a retry is
    // rejected with not-found even before phase two resolves.
    let mut c = Contract::new();
    assert_eq!(create_auction(&mut c, "nft", "tok", "alice", 100, 1, 100), Ok(()));
    let r = c.offer_bid(s("nft"), s("tok"), s("carol"), 200, 50_000_000_000);
    assert!(r.is_ok());
    let first = c.process_auction_purchase(s("nft"), s("tok"), 200, 101_000_000_000);
    assert!(first.is_ok());
    let second = c.process_auction_purchase(s("nft"), s("tok"), 200, 101_000_000_000);
    assert_eq!(second.unwrap_err(), MarketError::NoAuction);
}

#[test]
fn sale_lifecycle() {
    let mut c = Contract::new();
    let r = c.on_create_sale(
        s("tok"),
        s("alice"),
        9,
        Some(SaleArgs { sale_conditions: 500 }),
        s("nft"),
        s("alice"),
        ONE_SLOT,
    );
    assert_eq!(r, Ok(()));
    let key = listing_key(&s("nft"), &s("tok"));
    let sale = c.sales.get(&key).expect("sale stored");
    assert_eq!(sale.owner_id, s("alice"));
    assert_eq!(sale.approval_id, 9);
    assert_eq!(sale.sale_conditions, 500);
    assert!(c.by_owner_id.get(&s("alice")).expect("indexed").contains(&key));
    assert!(c.by_nft_contract_id.get(&s("nft")).expect("indexed").contains(&key));

    let r = c.process_purchase(s("nft"), s("tok"), s("alice"), 500);
    assert_eq!(r.unwrap_err(), MarketError::OwnListing);
    let r = c.process_purchase(s("nft"), s("tok"), s("bob"), 499);
    assert_eq!(r.unwrap_err(), MarketError::DepositTooLow);

    let req = c.process_purchase(s("nft"), s("tok"), s("bob"), 520).expect("purchase accepted");
    assert_eq!(req.buyer_id, s("bob"));
    assert_eq!(req.approval_id, 9);
    assert_eq!(req.price, 520);
    assert!(c.sales.get(&key).is_none());
    assert!(c.by_owner_id.get(&s("alice")).is_none());
    let r = c.process_purchase(s("nft"), s("tok"), s("bob"), 520);
    assert_eq!(r.unwrap_err(), MarketError::NoSale);
}

#[test]
fn sale_cancel() {
    let mut c = Contract::new();
    let r = c.on_create_sale(
        s("tok"),
        s("alice"),
        9,
        Some(SaleArgs { sale_conditions: 500 }),
        s("nft"),
        s("alice"),
        ONE_SLOT,
    );
    assert_eq!(r, Ok(()));
    let r = c.remove_sale(s("nft"), s("tok"), s("alice"), 2);
    assert_eq!(r, Err(MarketError::BadDeposit));
    let r = c.remove_sale(s("nft"), s("tok"), s("mallory"), 1);
    assert_eq!(r, Err(MarketError::NotOwner));
    let r = c.remove_sale(s("nft"), s("tok"), s("alice"), 1);
    assert_eq!(r, Ok(()));
    let key = listing_key(&s("nft"), &s("tok"));
    assert!(c.sales.get(&key).is_none());
    assert!(c.by_owner_id.get(&s("alice")).is_none());
}

#[test]
fn internal_remove_sale_returns_record() {
    let mut c = Contract::new();
    let r = c.on_create_sale(
        s("tok"),
        s("alice"),
        9,
        Some(SaleArgs { sale_conditions: 500 }),
        s("nft"),
        s("alice"),
        ONE_SLOT,
    );
    assert_eq!(r, Ok(()));
    let sale = c.internal_remove_sale(s("nft"), s("tok"));
    assert_eq!(sale.owner_id, s("alice"));
    assert_eq!(sale.token_id, s("tok"));
    assert_eq!(sale.sale_conditions, 500);
    assert!(c.sales.get(&listing_key(&s("nft"), &s("tok"))).is_none());
}

#[test]
fn storage_minimum_balance_is_per_sale_cost() {
    let c = Contract::new();
    assert_eq!(c.storage_minimum_balance(), STORAGE_PER_SALE);
}
