use market_unic::auction_callback::SaleArgs;
use market_unic::auction_execute::SettlementOutcome;
use market_unic::contract::Contract;
use market_unic::{listing_key, STORAGE_PER_SALE};

fn s(text: &str) -> String {
    text.to_string()
}

#[test]
fn full_settlement_distributes_two_recipients() {
    // Create at 100, B bids 150, C bids 200; after the end time the
    // purchase removes the listing and a reconciling two-recipient payout
    // summing to 200 pays both.
    let mut c = Contract::new();
    let r = c.on_create_auction(
        s("tok"),
        s("alice"),
        7,
        1,
        100,
        Some(SaleArgs { sale_conditions: 100 }),
        s("nft"),
        s("alice"),
        STORAGE_PER_SALE,
    );
    assert_eq!(r, Ok(()));
    let refund = c.offer_bid(s("nft"), s("tok"), s("bob"), 150, 50_000_000_000).unwrap();
    assert!(refund.is_none());
    let refund = c.offer_bid(s("nft"), s("tok"), s("carol"), 200, 60_000_000_000).unwrap();
    assert!(refund.is_some());
    let req = c
        .process_auction_purchase(s("nft"), s("tok"), 200, 101_000_000_000)
        .expect("purchase accepted");
    assert_eq!(req.buyer_id, s("carol"));
    assert_eq!(req.price, 200);
    let key = listing_key(&s("nft"), &s("tok"));
    assert!(c.auctions.get(&key).is_none());
    assert!(c.by_auction_owner_id.get(&s("alice")).is_none());
    assert!(c.auctions_by_nft_contract_id.get(&s("nft")).is_none());

    let payout = vec![(s("alice"), 180u128), (s("royalty"), 20u128)];
    let outcome = Contract::resolve_auction_purchase(req.buyer_id, req.price, Some(payout));
    match outcome {
        SettlementOutcome::Distributed { transfers } => {
            assert_eq!(transfers.len(), 2);
            assert_eq!(transfers[0].to, s("alice"));
            assert_eq!(transfers[0].amount, 180);
            assert_eq!(transfers[1].to, s("royalty"));
            assert_eq!(transfers[1].amount, 20);
        }
        SettlementOutcome::Refunded { .. } => panic!("payout should reconcile"),
    }
}

#[test]
fn overpaying_payout_is_refunded() {
    // A payout summing to 250 against an escrow of 200 fails
    // reconciliation: the buyer gets the full 200 back, nobody else is paid.
    let payout = vec![(s("alice"), 230u128), (s("royalty"), 20u128)];
    let outcome = Contract::resolve_auction_purchase(s("carol"), 200, Some(payout));
    match outcome {
        SettlementOutcome::Refunded { transfer } => {
            assert_eq!(transfer.to, s("carol"));
            assert_eq!(transfer.amount, 200);
        }
        SettlementOutcome::Distributed { .. } => panic!("payout must not be trusted"),
    }
}

fn expect_refund(outcome: SettlementOutcome, buyer: &str, price: u128) {
    match outcome {
        SettlementOutcome::Refunded { transfer } => {
            assert_eq!(transfer.to, s(buyer));
            assert_eq!(transfer.amount, price);
        }
        SettlementOutcome::Distributed { .. } => panic!("expected a refund"),
    }
}

#[test]
fn failed_call_is_refunded() {
    expect_refund(Contract::resolve_auction_purchase(s("carol"), 200, None), "carol", 200);
}

#[test]
fn empty_payout_is_refunded() {
    expect_refund(
        Contract::resolve_auction_purchase(s("carol"), 200, Some(vec![])),
        "carol",
        200,
    );
}

#[test]
fn over_cap_payout_is_refunded() {
    let mut payout: Vec<(String, u128)> = Vec::new();
    for i in 0..11u128 {
        payout.push((format!("r{}", i), 1));
    }
    expect_refund(
        Contract::resolve_auction_purchase(s("carol"), 200, Some(payout)),
        "carol",
        200,
    );
}

#[test]
fn ten_recipients_are_accepted() {
    let mut payout: Vec<(String, u128)> = Vec::new();
    for i in 0..10u128 {
        payout.push((format!("r{}", i), 20));
    }
    let outcome = Contract::resolve_auction_purchase(s("carol"), 200, Some(payout));
    match outcome {
        SettlementOutcome::Distributed { transfers } => assert_eq!(transfers.len(), 10),
        SettlementOutcome::Refunded { .. } => panic!("ten recipients are within the cap"),
    }
}

#[test]
fn one_unit_rounding_loss_is_tolerated() {
    // 3333 + 3333 + 3333 against 10000 leaves a remainder of 1.
    let payout = vec![(s("a"), 3333u128), (s("b"), 3333u128), (s("c"), 3333u128)];
    let outcome = Contract::resolve_auction_purchase(s("carol"), 9999 + 1, Some(payout));
    match outcome {
        SettlementOutcome::Distributed { transfers } => {
            assert_eq!(transfers.len(), 3);
            let total: u128 = transfers.iter().map(|t| t.amount).sum();
            assert_eq!(total, 9999);
        }
        SettlementOutcome::Refunded { .. } => panic!("one unit short reconciles"),
    }
}

#[test]
fn two_unit_shortfall_is_refunded() {
    let payout = vec![(s("a"), 99u128), (s("b"), 99u128)];
    expect_refund(
        Contract::resolve_auction_purchase(s("carol"), 200, Some(payout)),
        "carol",
        200,
    );
}

#[test]
fn underflowing_payout_is_refunded() {
    // The second amount alone underflows the remainder mid-way.
    let payout = vec![(s("a"), 150u128), (s("b"), u128::MAX)];
    expect_refund(
        Contract::resolve_auction_purchase(s("carol"), 200, Some(payout)),
        "carol",
        200,
    );
}

#[test]
fn exact_sum_is_distributed() {
    let payout = vec![(s("a"), 200u128)];
    let outcome = Contract::resolve_auction_purchase(s("carol"), 200, Some(payout));
    match outcome {
        SettlementOutcome::Distributed { transfers } => {
            assert_eq!(transfers.len(), 1);
            assert_eq!(transfers[0].to, s("a"));
            assert_eq!(transfers[0].amount, 200);
        }
        SettlementOutcome::Refunded { .. } => panic!("exact sum reconciles"),
    }
}
