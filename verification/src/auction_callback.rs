use vstd::prelude::*;
use crate::auction_execute::{auction_record_wf, Auction};
use crate::contract::{index_insert, index_with, lemma_indexed_insert, Contract, ContractV};
use crate::{listing_key, spec_listing_key, MarketError, STORAGE_PER_SALE};

verus! {

/// The listing descriptor carried by a creation request's message payload.
/// The payload itself is an opaque wire string; whoever receives it decodes
/// it against this schema and hands the core either the descriptor or
/// nothing.
#[derive(Clone, Copy, Debug)]
pub struct SaleArgs {
    /// Asking price, in the smallest currency unit.
    pub sale_conditions: u128,
}

/// A creation timestamp, given in seconds, as stored: in nanoseconds.
pub open spec fn to_nanos(t: u64) -> u128 {
    ((t as int) * 1_000_000_000) as u128
}

/// The state after recording the auction `a` under `k` in the store and in
/// both of its indices.
pub open spec fn with_auction(cv: ContractV, k: Seq<char>, a: Auction) -> ContractV {
    ContractV {
        auctions: cv.auctions.insert(k, a),
        by_auction_owner_id: index_with(cv.by_auction_owner_id, a.owner_id@, k),
        auctions_by_nft_contract_id: index_with(
            cv.auctions_by_nft_contract_id,
            a.nft_contract_id@,
            k,
        ),
        ..cv
    }
}

/// Which fault, if any, rejects creating an auction listing: the request
/// must come from the registry itself on behalf of the declared owner, the
/// owner must have paid storage for one more listing, the payload must have
/// parsed, the bidding window must be non-degenerate, and the key must be
/// free.
pub open spec fn create_auction_decision(
    cv: ContractV,
    nft_contract_id: Seq<char>,
    signer: Seq<char>,
    auction_token: Seq<char>,
    account: Seq<char>,
    start_time: u64,
    end_time: u64,
    sale_args: Option<SaleArgs>,
    owner_paid_storage: u128,
) -> Result<(), MarketError> {
    if nft_contract_id == signer {
        Err(MarketError::NotRegistryCall)
    } else if account != signer {
        Err(MarketError::WrongOwner)
    } else if owner_paid_storage < (Contract::spec_supply(cv, signer) + 1) * STORAGE_PER_SALE {
        Err(MarketError::InsufficientStorage)
    } else if sale_args is None {
        Err(MarketError::BadPayload)
    } else if end_time <= start_time {
        Err(MarketError::BadTimeWindow)
    } else if cv.auctions.contains_key(spec_listing_key(nft_contract_id, auction_token)) {
        Err(MarketError::AlreadyListed)
    } else {
        Ok(())
    }
}

impl Contract {
    /// Intake of an auction listing from a registry notification. The
    /// registry (`nft_contract_id`) invokes this on behalf of the signer;
    /// `sale_args` is the decoded message payload, or nothing when it did
    /// not decode. On success the record is inserted with no leader, and
    /// both indices gain its key. A rejected request leaves the state
    /// unchanged; no funds move at creation time.
    pub fn on_create_auction(
        &mut self,
        auction_token: String,
        account_id: String,
        auction_id: u64,
        start_time: u64,
        end_time: u64,
        sale_args: Option<SaleArgs>,
        nft_contract_id: String,
        signer_id: String,
        owner_paid_storage: u128,
    ) -> (r: Result<(), MarketError>)
        requires
            old(self).wf(),
        ensures
            final(self).wf(),
            (match r {
                Ok(()) => {
                    let k = spec_listing_key(nft_contract_id@, auction_token@);
                    &&& create_auction_decision(
                        old(self)@,
                        nft_contract_id@,
                        signer_id@,
                        auction_token@,
                        account_id@,
                        start_time,
                        end_time,
                        sale_args,
                        owner_paid_storage,
                    ) == Ok::<(), MarketError>(())
                    &&& sale_args matches Some(args) && final(self)@ == with_auction(
                        old(self)@,
                        k,
                        (Auction {
                            owner_id: account_id,
                            auction_id,
                            nft_contract_id,
                            auction_token,
                            sale_conditions: args.sale_conditions,
                            start_time: to_nanos(start_time),
                            end_time: to_nanos(end_time),
                            winner: None,
                            is_near_claimed: false,
                            is_nft_claimed: false,
                        }),
                    )
                },
                Err(e) => {
                    &&& Err::<(), MarketError>(e) == create_auction_decision(
                        old(self)@,
                        nft_contract_id@,
                        signer_id@,
                        auction_token@,
                        account_id@,
                        start_time,
                        end_time,
                        sale_args,
                        owner_paid_storage,
                    )
                    &&& final(self)@ == old(self)@
                },
            }),
    {
        if nft_contract_id == signer_id {
            return Err(MarketError::NotRegistryCall);
        }
        if !(account_id == signer_id) {
            return Err(MarketError::WrongOwner);
        }
        let supply = self.get_supply_by_owner_id(&signer_id);
        let signer_storage_required = match supply.checked_add(1) {
            Some(more) => match more.checked_mul(STORAGE_PER_SALE) {
                Some(required) => required,
                None => {
                    return Err(MarketError::InsufficientStorage);
                },
            },
            None => {
                return Err(MarketError::InsufficientStorage);
            },
        };
        if owner_paid_storage < signer_storage_required {
            return Err(MarketError::InsufficientStorage);
        }
        let args = match sale_args {
            Some(args) => args,
            None => {
                return Err(MarketError::BadPayload);
            },
        };
        if end_time <= start_time {
            return Err(MarketError::BadTimeWindow);
        }
        let key = listing_key(&nft_contract_id, &auction_token);
        let ghost k = key@;
        let ghost pre = self@;
        if self.auctions.contains_key(&key) {
            return Err(MarketError::AlreadyListed);
        }
        let auction = Auction {
            owner_id: account_id.clone(),
            auction_id,
            nft_contract_id: nft_contract_id.clone(),
            auction_token: auction_token.clone(),
            sale_conditions: args.sale_conditions,
            start_time: (start_time as u128) * 1_000_000_000,
            end_time: (end_time as u128) * 1_000_000_000,
            winner: None,
            is_near_claimed: false,
            is_nft_claimed: false,
        };
        proof {
            assert(auction_record_wf(auction, k));
        }
        self.auctions.insert(key, auction);
        let index_key = listing_key(&nft_contract_id, &auction_token);
        index_insert(&mut self.by_auction_owner_id, &account_id, &index_key);
        index_insert(&mut self.auctions_by_nft_contract_id, &nft_contract_id, &index_key);
        proof {
            lemma_indexed_insert(
                pre.auctions,
                pre.by_auction_owner_id,
                pre.auctions_by_nft_contract_id,
                |a: Auction| a.owner_id@,
                |a: Auction| a.nft_contract_id@,
                k,
                (Auction {
                    owner_id: account_id,
                    auction_id,
                    nft_contract_id,
                    auction_token,
                    sale_conditions: args.sale_conditions,
                    start_time: to_nanos(start_time),
                    end_time: to_nanos(end_time),
                    winner: None,
                    is_near_claimed: false,
                    is_nft_claimed: false,
                }),
            );
            assert(self@ =~= with_auction(
                pre,
                k,
                (Auction {
                    owner_id: account_id,
                    auction_id,
                    nft_contract_id,
                    auction_token,
                    sale_conditions: args.sale_conditions,
                    start_time: to_nanos(start_time),
                    end_time: to_nanos(end_time),
                    winner: None,
                    is_near_claimed: false,
                    is_nft_claimed: false,
                }),
            ));
        }
        Ok(())
    }
}

} // verus!
