use vstd::prelude::*;
use crate::auction_execute::{
    bid_decision, payout_ok, purchase_auction_decision, sum_amounts, with_bid,
};
use crate::contract::{wf_v, ContractV};
use crate::internal::without_auction;
use crate::sale::purchase_sale_decision;
use crate::{MarketError, Transfer, ENROLL_FEE};

verus! {

/// Index consistency: in a well-formed state, a listing key is in a primary
/// store exactly when some index entry of each of the two indices references
/// it — and then only the entries of the record's own owner and registry —
/// and no stored key set is empty.
pub proof fn lemma_index_consistency(cv: ContractV, k: Seq<char>)
    requires
        wf_v(cv),
    ensures
        cv.auctions.contains_key(k) <==> ((exists|o: Seq<char>|
            cv.by_auction_owner_id.contains_key(o) && #[trigger] cv.by_auction_owner_id[o].contains(
                k,
            )) && (exists|r: Seq<char>|
            cv.auctions_by_nft_contract_id.contains_key(r)
                && #[trigger] cv.auctions_by_nft_contract_id[r].contains(k))),
        cv.auctions.contains_key(k) ==> (forall|o: Seq<char>|
            cv.by_auction_owner_id.contains_key(o) && #[trigger] cv.by_auction_owner_id[o].contains(
                k,
            ) ==> o == cv.auctions[k].owner_id@),
        cv.sales.contains_key(k) <==> ((exists|o: Seq<char>|
            cv.by_owner_id.contains_key(o) && #[trigger] cv.by_owner_id[o].contains(k)) && (
        exists|r: Seq<char>|
            cv.by_nft_contract_id.contains_key(r) && #[trigger] cv.by_nft_contract_id[r].contains(
                k,
            ))),
        forall|o: Seq<char>| #[trigger]
            cv.by_auction_owner_id.contains_key(o) ==> cv.by_auction_owner_id[o]
                != Set::<Seq<char>>::empty(),
        forall|o: Seq<char>| #[trigger]
            cv.by_owner_id.contains_key(o) ==> cv.by_owner_id[o] != Set::<Seq<char>>::empty(),
{
    if cv.auctions.contains_key(k) {
        let a = cv.auctions[k];
        assert(cv.by_auction_owner_id[a.owner_id@].contains(k));
        assert(cv.auctions_by_nft_contract_id[a.nft_contract_id@].contains(k));
    }
    if cv.sales.contains_key(k) {
        let s = cv.sales[k];
        assert(cv.by_owner_id[s.owner_id@].contains(k));
        assert(cv.by_nft_contract_id[s.nft_contract_id@].contains(k));
    }
}

/// No self-dealing: a bid by a listing's owner is rejected whatever the
/// amount and time; a direct purchase by a sale's owner is rejected whatever
/// the deposit; and a recorded auction leader — the account phase one of a
/// settlement transfers the asset to — is never the owner.
pub proof fn lemma_no_self_dealing(cv: ContractV, k: Seq<char>, amount: u128, now: u128)
    requires
        wf_v(cv),
    ensures
        bid_decision(cv, k, cv.auctions[k].owner_id@, amount, now) is Err,
        purchase_sale_decision(cv, k, cv.sales[k].owner_id@, amount) is Err,
        cv.auctions.contains_key(k) ==> (cv.auctions[k].winner matches Some(w) ==> w@
            != cv.auctions[k].owner_id@),
{
}

/// Monotonic auction price: each accepted bid strictly exceeds the price it
/// found — so over any chain of accepted bids the price strictly ascends —
/// and an accepted bid that outbids a leader finds them recorded at a price
/// at least the enrollment fee, so the refund they are owed is exactly their
/// bid less the fee, with no underflow.
pub proof fn lemma_monotonic_price(
    cv: ContractV,
    k: Seq<char>,
    b1: String,
    a1: u128,
    n1: u128,
    b2: Seq<char>,
    a2: u128,
    n2: u128,
)
    requires
        bid_decision(cv, k, b1@, a1, n1) == Ok::<(), MarketError>(()),
        bid_decision(with_bid(cv, k, b1, a1), k, b2, a2, n2) == Ok::<(), MarketError>(()),
    ensures
        a1 > cv.auctions[k].sale_conditions,
        a2 > a1,
        with_bid(cv, k, b1, a1).auctions[k].winner == Some(b1),
        with_bid(cv, k, b1, a1).auctions[k].sale_conditions == a1,
        a1 >= ENROLL_FEE,
{
}

/// Settlement exactly-once: once phase one of an auction purchase accepts,
/// the key is gone from the store, and a second attempt on the same key is
/// rejected with not-found — whatever deposit and time it comes with, and
/// before phase two resolves anything.
pub proof fn lemma_settlement_exactly_once(
    cv: ContractV,
    k: Seq<char>,
    deposit: u128,
    now: u128,
    deposit2: u128,
    now2: u128,
)
    requires
        wf_v(cv),
        purchase_auction_decision(cv, k, deposit, now) == Ok::<(), MarketError>(()),
    ensures
        !without_auction(cv, k).auctions.contains_key(k),
        purchase_auction_decision(without_auction(cv, k), k, deposit2, now2) == Err::<
            (),
            MarketError,
        >(MarketError::NoAuction),
{
}

/// Total of the amounts named by a sequence of transfer instructions.
pub open spec fn sum_transfers(s: Seq<Transfer>) -> int
    decreases s.len(),
{
    if s.len() == 0 {
        0
    } else {
        sum_transfers(s.drop_last()) + s.last().amount
    }
}

proof fn lemma_sums_agree(pairs: Seq<(String, u128)>, transfers: Seq<Transfer>)
    requires
        transfers.len() == pairs.len(),
        forall|i: int|
            0 <= i < pairs.len() ==> (#[trigger] transfers[i]).amount == pairs[i].1,
    ensures
        sum_transfers(transfers) == sum_amounts(pairs),
    decreases pairs.len(),
{
    if pairs.len() > 0 {
        lemma_sums_agree(pairs.drop_last(), transfers.drop_last());
        assert(transfers[pairs.len() - 1].amount == pairs[pairs.len() - 1].1);
    }
}

/// Payout conservation: transfers that mirror a reconciled payout structure
/// distribute a total that differs from the escrowed price by at most one
/// unit — the marketplace never pays out more than it received, and at most
/// one unit less.
pub proof fn lemma_payout_conservation(
    price: u128,
    pairs: Seq<(String, u128)>,
    transfers: Seq<Transfer>,
)
    requires
        payout_ok(price, pairs),
        transfers.len() == pairs.len(),
        forall|i: int|
            0 <= i < pairs.len() ==> (#[trigger] transfers[i]).amount == pairs[i].1,
    ensures
        price - 1 <= sum_transfers(transfers) <= price,
{
    lemma_sums_agree(pairs, transfers);
}

} // verus!
