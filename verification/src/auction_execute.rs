use vstd::prelude::*;
use crate::contract::{lemma_indexed_update, Contract, ContractV};
use crate::internal::without_auction;
use crate::{listing_key, spec_listing_key, MarketError, Transfer, ENROLL_FEE};

verus! {

/// A time-boxed ascending auction: one asset of one registry, offered by its
/// owner, led by the highest bidder so far.
#[derive(Debug)]
pub struct Auction {
    /// Owner of the auction; receives the proceeds.
    pub owner_id: String,
    /// Registry-issued approval id authorizing this listing.
    pub auction_id: u64,
    /// Registry the asset was minted on.
    pub nft_contract_id: String,
    /// The asset's id on that registry.
    pub auction_token: String,
    /// Current price: the asking price, or the leading bid once one exists.
    pub sale_conditions: u128,
    /// Start of the bidding window, in nanoseconds.
    pub start_time: u128,
    /// End of the bidding window, in nanoseconds.
    pub end_time: u128,
    /// The leading bidder, once a bid was accepted.
    pub winner: Option<String>,
    /// Guards against settling the funds twice.
    pub is_near_claimed: bool,
    /// Guards against settling the asset twice.
    pub is_nft_claimed: bool,
}

/// What must hold of an auction record stored under `k`: the key is the
/// record's own listing key, the bidding window is non-degenerate, and a
/// leader is never the owner and always bid at least the enrollment fee.
pub open spec fn auction_record_wf(a: Auction, k: Seq<char>) -> bool {
    &&& k == spec_listing_key(a.nft_contract_id@, a.auction_token@)
    &&& a.start_time < a.end_time
    &&& (a.winner matches Some(w) ==> w@ != a.owner_id@ && a.sale_conditions >= ENROLL_FEE)
}

/// Everything phase one of a purchase hands to the registry: the request for
/// the payout computation on the escrowed price, capped at ten recipients.
#[derive(Debug)]
pub struct PayoutRequest {
    /// Account the asset is transferred to: the recorded leader.
    pub buyer_id: String,
    /// The asset's id on the registry.
    pub token_id: String,
    /// Approval id under which the marketplace may move the asset.
    pub approval_id: u64,
    /// Context memo passed along with the request.
    pub memo: String,
    /// The escrowed price the payout is computed on.
    pub price: u128,
    /// Cap on the number of distinct payout recipients honored.
    pub max_len_payout: u32,
    /// The registry the request is addressed to.
    pub nft_contract_id: String,
}

/// The observational outcome of phase two of a purchase.
#[derive(Debug)]
pub enum SettlementOutcome {
    /// The payout reconciled: each recipient receives the designated amount.
    Distributed { transfers: Vec<Transfer> },
    /// The payout was absent, malformed, over the cap, or did not reconcile:
    /// the buyer is made whole with the full escrowed price.
    Refunded { transfer: Transfer },
}

/// Total of the amounts named by a payout structure.
pub open spec fn sum_amounts(s: Seq<(String, u128)>) -> int
    decreases s.len(),
{
    if s.len() == 0 {
        0
    } else {
        sum_amounts(s.drop_last()) + s.last().1
    }
}

proof fn lemma_sum_take_step(s: Seq<(String, u128)>, i: int)
    requires
        0 <= i < s.len(),
    ensures
        sum_amounts(s.take(i + 1)) == sum_amounts(s.take(i)) + s[i].1,
{
    assert(s.take(i + 1).drop_last() =~= s.take(i));
    assert(s.take(i + 1).last() == s[i]);
}

/// A payout structure reconciles with the escrowed price when it names one
/// to ten recipients and its total falls short of the price by at most one
/// unit.
pub open spec fn payout_ok(price: u128, s: Seq<(String, u128)>) -> bool {
    &&& 1 <= s.len() <= 10
    &&& sum_amounts(s) <= price
    &&& price - sum_amounts(s) <= 1
}

/// The state after an accepted bid of `amount` by `bidder` on the auction
/// under `k`: the bidder is recorded as leader at the new price; nothing
/// else, the indices included, moves.
pub open spec fn with_bid(cv: ContractV, k: Seq<char>, bidder: String, amount: u128) -> ContractV {
    ContractV {
        auctions: cv.auctions.insert(
            k,
            (Auction { winner: Some(bidder), sale_conditions: amount, ..cv.auctions[k] }),
        ),
        ..cv
    }
}

/// Which fault, if any, rejects a bid of `amount` by `bidder` at `now` on the
/// auction under `k`. Faults are reported in this order.
pub open spec fn bid_decision(
    cv: ContractV,
    k: Seq<char>,
    bidder: Seq<char>,
    amount: u128,
    now: u128,
) -> Result<(), MarketError> {
    if !cv.auctions.contains_key(k) {
        Err(MarketError::NoAuction)
    } else if now <= cv.auctions[k].start_time {
        Err(MarketError::AuctionNotStarted)
    } else if now >= cv.auctions[k].end_time {
        Err(MarketError::AuctionAlreadyDone)
    } else if amount <= cv.auctions[k].sale_conditions {
        Err(MarketError::BidTooLow)
    } else if amount < ENROLL_FEE {
        Err(MarketError::BidBelowFee)
    } else if bidder == cv.auctions[k].owner_id@ {
        Err(MarketError::OwnListing)
    } else {
        Ok(())
    }
}

/// Which fault, if any, rejects a cancellation by `caller` with
/// `attached_deposit` of the auction under `k`.
pub open spec fn cancel_auction_decision(
    cv: ContractV,
    k: Seq<char>,
    caller: Seq<char>,
    attached_deposit: u128,
) -> Result<(), MarketError> {
    if attached_deposit != 1 {
        Err(MarketError::BadDeposit)
    } else if !cv.auctions.contains_key(k) {
        Err(MarketError::NoAuction)
    } else if caller != cv.auctions[k].owner_id@ {
        Err(MarketError::NotOwner)
    } else {
        Ok(())
    }
}

/// Which fault, if any, rejects starting the purchase of the auction under
/// `k` at `now` with `deposit` attached.
pub open spec fn purchase_auction_decision(
    cv: ContractV,
    k: Seq<char>,
    deposit: u128,
    now: u128,
) -> Result<(), MarketError> {
    if !cv.auctions.contains_key(k) {
        Err(MarketError::NoAuction)
    } else if cv.auctions[k].winner is None {
        Err(MarketError::NoWinner)
    } else if now <= cv.auctions[k].end_time {
        Err(MarketError::AuctionNotOver)
    } else if cv.auctions[k].is_nft_claimed {
        Err(MarketError::AlreadyClaimed)
    } else if cv.auctions[k].is_near_claimed {
        Err(MarketError::AlreadyClaimed)
    } else if deposit < cv.auctions[k].sale_conditions {
        Err(MarketError::DepositTooLow)
    } else {
        Ok(())
    }
}

impl Contract {
    /// Cancels an auction: demands exactly one attached unit as
    /// authorization and the owner as caller, refunds a leader their bid
    /// less the enrollment fee, and removes the listing together with both
    /// index entries. A rejected cancellation leaves the state unchanged.
    pub fn remove_auction(
        &mut self,
        nft_contract_id: String,
        token_id: String,
        predecessor_account_id: String,
        attached_deposit: u128,
    ) -> (r: Result<Option<Transfer>, MarketError>)
        requires
            old(self).wf(),
        ensures
            final(self).wf(),
            (match r {
                Ok(refund) => {
                    let k = spec_listing_key(nft_contract_id@, token_id@);
                    &&& cancel_auction_decision(
                        old(self)@,
                        k,
                        predecessor_account_id@,
                        attached_deposit,
                    ) == Ok::<(), MarketError>(())
                    &&& final(self)@ == without_auction(old(self)@, k)
                    &&& (match old(self)@.auctions[k].winner {
                        Some(w) => refund matches Some(t) && t.to == w && t.amount == old(
                            self,
                        )@.auctions[k].sale_conditions - ENROLL_FEE,
                        None => refund is None,
                    })
                },
                Err(e) => {
                    &&& Err::<(), MarketError>(e) == cancel_auction_decision(
                        old(self)@,
                        spec_listing_key(nft_contract_id@, token_id@),
                        predecessor_account_id@,
                        attached_deposit,
                    )
                    &&& final(self)@ == old(self)@
                },
            }),
    {
        if attached_deposit != 1 {
            return Err(MarketError::BadDeposit);
        }
        let key = listing_key(&nft_contract_id, &token_id);
        let ghost k = key@;
        let refund: Option<Transfer> = match self.auctions.get(&key) {
            None => {
                return Err(MarketError::NoAuction);
            },
            Some(auction) => {
                if !(predecessor_account_id == auction.owner_id) {
                    return Err(MarketError::NotOwner);
                }
                proof {
                    assert(self@.auctions.contains_key(k));
                }
                match &auction.winner {
                    Some(w) => Some(
                        Transfer { to: w.clone(), amount: auction.sale_conditions - ENROLL_FEE },
                    ),
                    None => None,
                }
            },
        };
        self.internal_remove_auction(nft_contract_id, token_id);
        Ok(refund)
    }

    /// Accepts a bid when the auction exists, the bidding window is open,
    /// the amount strictly exceeds the current price and covers the
    /// enrollment fee, and the bidder is not the owner. On acceptance the
    /// previous leader, if any, is owed a refund of their bid less the fee,
    /// returned here as a transfer instruction to perform before anything
    /// else; the bidder is recorded as leader at the new price. A rejected
    /// bid leaves the state unchanged.
    pub fn offer_bid(
        &mut self,
        nft_contract_id: String,
        token_id: String,
        bidder_id: String,
        attached_deposit: u128,
        block_timestamp: u64,
    ) -> (r: Result<Option<Transfer>, MarketError>)
        requires
            old(self).wf(),
        ensures
            final(self).wf(),
            (match r {
                Ok(refund) => {
                    let k = spec_listing_key(nft_contract_id@, token_id@);
                    let a = old(self)@.auctions[k];
                    &&& bid_decision(
                        old(self)@,
                        k,
                        bidder_id@,
                        attached_deposit,
                        block_timestamp as u128,
                    ) == Ok::<(), MarketError>(())
                    &&& final(self)@ == with_bid(old(self)@, k, bidder_id, attached_deposit)
                    &&& (match a.winner {
                        Some(w) => refund matches Some(t) && t.to == w && t.amount
                            == a.sale_conditions - ENROLL_FEE,
                        None => refund is None,
                    })
                },
                Err(e) => {
                    &&& Err::<(), MarketError>(e) == bid_decision(
                        old(self)@,
                        spec_listing_key(nft_contract_id@, token_id@),
                        bidder_id@,
                        attached_deposit,
                        block_timestamp as u128,
                    )
                    &&& final(self)@ == old(self)@
                },
            }),
    {
        let key = listing_key(&nft_contract_id, &token_id);
        let ghost k = key@;
        let ghost pre = self@;
        let now: u128 = block_timestamp as u128;
        let (new_auction, refund): (Auction, Option<Transfer>) = match self.auctions.get(&key) {
            None => {
                return Err(MarketError::NoAuction);
            },
            Some(auction) => {
                if now <= auction.start_time {
                    return Err(MarketError::AuctionNotStarted);
                }
                if now >= auction.end_time {
                    return Err(MarketError::AuctionAlreadyDone);
                }
                if attached_deposit <= auction.sale_conditions {
                    return Err(MarketError::BidTooLow);
                }
                if attached_deposit < ENROLL_FEE {
                    return Err(MarketError::BidBelowFee);
                }
                if bidder_id == auction.owner_id {
                    return Err(MarketError::OwnListing);
                }
                proof {
                    assert(pre.auctions.contains_key(k));
                }
                let refund: Option<Transfer> = match &auction.winner {
                    Some(w) => Some(
                        Transfer { to: w.clone(), amount: auction.sale_conditions - ENROLL_FEE },
                    ),
                    None => None,
                };
                (
                    Auction {
                        owner_id: auction.owner_id.clone(),
                        auction_id: auction.auction_id,
                        nft_contract_id: auction.nft_contract_id.clone(),
                        auction_token: auction.auction_token.clone(),
                        sale_conditions: attached_deposit,
                        start_time: auction.start_time,
                        end_time: auction.end_time,
                        winner: Some(bidder_id),
                        is_near_claimed: auction.is_near_claimed,
                        is_nft_claimed: auction.is_nft_claimed,
                    },
                    refund,
                )
            },
        };
        self.auctions.insert(key, new_auction);
        proof {
            lemma_indexed_update(
                pre.auctions,
                pre.by_auction_owner_id,
                pre.auctions_by_nft_contract_id,
                |a: Auction| a.owner_id@,
                |a: Auction| a.nft_contract_id@,
                k,
                new_auction,
            );
            assert(self@ =~= with_bid(pre, k, bidder_id, attached_deposit));
        }
        Ok(refund)
    }

    /// Phase one of a purchase: checks that the auction is over, was won,
    /// and is covered by the attached deposit; then removes the listing — so
    /// a second attempt on the same key fails with not-found, whatever
    /// becomes of phase two — and describes the payout computation the
    /// registry is to run on the escrowed price. A rejected purchase leaves
    /// the state unchanged.
    pub fn process_auction_purchase(
        &mut self,
        nft_contract_id: String,
        token_id: String,
        attached_deposit: u128,
        block_timestamp: u64,
    ) -> (r: Result<PayoutRequest, MarketError>)
        requires
            old(self).wf(),
        ensures
            final(self).wf(),
            (match r {
                Ok(req) => {
                    let k = spec_listing_key(nft_contract_id@, token_id@);
                    let a = old(self)@.auctions[k];
                    &&& purchase_auction_decision(
                        old(self)@,
                        k,
                        attached_deposit,
                        block_timestamp as u128,
                    ) == Ok::<(), MarketError>(())
                    &&& final(self)@ == without_auction(old(self)@, k)
                    &&& a.winner matches Some(w) && req.buyer_id == w
                    &&& req.buyer_id@ != a.owner_id@
                    &&& req.token_id@ == token_id@
                    &&& req.approval_id == a.auction_id
                    &&& req.memo@ == "payout from market"@
                    &&& req.price == a.sale_conditions
                    &&& req.max_len_payout == 10u32
                    &&& req.nft_contract_id@ == nft_contract_id@
                },
                Err(e) => {
                    &&& Err::<(), MarketError>(e) == purchase_auction_decision(
                        old(self)@,
                        spec_listing_key(nft_contract_id@, token_id@),
                        attached_deposit,
                        block_timestamp as u128,
                    )
                    &&& final(self)@ == old(self)@
                },
            }),
    {
        let key = listing_key(&nft_contract_id, &token_id);
        let ghost k = key@;
        let now: u128 = block_timestamp as u128;
        let (buyer_id, approval_id, price): (String, u64, u128) = match self.auctions.get(&key) {
            None => {
                return Err(MarketError::NoAuction);
            },
            Some(auction) => {
                let buyer_id = match &auction.winner {
                    None => {
                        return Err(MarketError::NoWinner);
                    },
                    Some(w) => w.clone(),
                };
                if now <= auction.end_time {
                    return Err(MarketError::AuctionNotOver);
                }
                if auction.is_nft_claimed {
                    return Err(MarketError::AlreadyClaimed);
                }
                if auction.is_near_claimed {
                    return Err(MarketError::AlreadyClaimed);
                }
                if attached_deposit < auction.sale_conditions {
                    return Err(MarketError::DepositTooLow);
                }
                proof {
                    assert(self@.auctions.contains_key(k));
                }
                (buyer_id, auction.auction_id, auction.sale_conditions)
            },
        };
        let req = PayoutRequest {
            buyer_id,
            token_id: token_id.clone(),
            approval_id,
            memo: "payout from market".to_owned(),
            price,
            max_len_payout: 10,
            nft_contract_id: nft_contract_id.clone(),
        };
        self.internal_remove_auction(nft_contract_id, token_id);
        Ok(req)
    }

    /// Phase two of a purchase, run on the registry's payout response or on
    /// evidence of its failure (`None`). The response is untrusted: unless
    /// it names one to ten recipients and its total reconciles with the
    /// escrowed price to within one unit, the buyer is refunded the full
    /// price; otherwise each named recipient receives the designated
    /// amount. The store is not involved: the listing was already removed in
    /// phase one.
    pub fn resolve_auction_purchase(
        buyer_id: String,
        price: u128,
        payout: Option<Vec<(String, u128)>>,
    ) -> (r: SettlementOutcome)
        ensures
            (match r {
                SettlementOutcome::Distributed { transfers } => {
                    &&& payout matches Some(p) && payout_ok(price, p@) && transfers@.len()
                        == p@.len() && (forall|i: int|
                        0 <= i < p@.len() ==> (#[trigger] transfers@[i]).to == p@[i].0
                            && transfers@[i].amount == p@[i].1)
                },
                SettlementOutcome::Refunded { transfer } => {
                    &&& !(payout matches Some(p) && payout_ok(price, p@))
                    &&& transfer.to == buyer_id
                    &&& transfer.amount == price
                },
            }),
    {
        let pairs: Vec<(String, u128)> = match payout {
            Some(pairs) => pairs,
            None => {
                return SettlementOutcome::Refunded {
                    transfer: Transfer { to: buyer_id, amount: price },
                };
            },
        };
        let n = pairs.len();
        if n > 10 || n == 0 {
            return SettlementOutcome::Refunded {
                transfer: Transfer { to: buyer_id, amount: price },
            };
        }
        let mut remainder: u128 = price;
        let mut i: usize = 0;
        while i < n
            invariant
                payout == Some(pairs),
                1 <= n <= 10,
                n == pairs@.len(),
                0 <= i <= n,
                sum_amounts(pairs@.take(i as int)) <= price,
                remainder == price - sum_amounts(pairs@.take(i as int)),
            decreases n - i,
        {
            proof {
                lemma_sum_take_step(pairs@, i as int);
            }
            remainder = match remainder.checked_sub(pairs[i].1) {
                Some(rem) => rem,
                None => {
                    proof {
                        lemma_sum_take_step(pairs@, i as int);
                        lemma_sum_take_monotone(pairs@, i as int + 1);
                        assert(sum_amounts(pairs@.take(i as int + 1)) > price);
                        assert(sum_amounts(pairs@) > price);
                    }
                    return SettlementOutcome::Refunded {
                        transfer: Transfer { to: buyer_id, amount: price },
                    };
                },
            };
            i = i + 1;
        }
        proof {
            assert(pairs@.take(n as int) =~= pairs@);
        }
        if remainder == 0 || remainder == 1 {
            let mut transfers: Vec<Transfer> = Vec::new();
            let mut j: usize = 0;
            while j < n
                invariant
                    payout == Some(pairs),
                    payout_ok(price, pairs@),
                    n == pairs@.len(),
                    0 <= j <= n,
                    transfers@.len() == j,
                    forall|x: int|
                        0 <= x < j ==> (#[trigger] transfers@[x]).to == pairs@[x].0
                            && transfers@[x].amount == pairs@[x].1,
                decreases n - j,
            {
                let to = pairs[j].0.clone();
                let amount = pairs[j].1;
                transfers.push(Transfer { to, amount });
                j = j + 1;
            }
            SettlementOutcome::Distributed { transfers }
        } else {
            SettlementOutcome::Refunded { transfer: Transfer { to: buyer_id, amount: price } }
        }
    }
}

/// The total named by a prefix of a payout structure never exceeds the total
/// of the whole structure.
proof fn lemma_sum_take_monotone(s: Seq<(String, u128)>, i: int)
    requires
        0 <= i <= s.len(),
    ensures
        sum_amounts(s.take(i)) <= sum_amounts(s),
    decreases s.len() - i,
{
    if i < s.len() {
        lemma_sum_take_step(s, i);
        lemma_sum_take_monotone(s, i + 1);
    } else {
        assert(s.take(i) =~= s);
    }
}

} // verus!
