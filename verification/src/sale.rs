use vstd::prelude::*;
use crate::auction_callback::SaleArgs;
use crate::auction_execute::PayoutRequest;
use crate::contract::{
    index_insert, index_with, lemma_indexed_insert, Contract, ContractV,
};
use crate::internal::without_sale;
use crate::{listing_key, spec_listing_key, MarketError, STORAGE_PER_SALE};

verus! {

/// A fixed-price listing: one asset of one registry, offered by its owner.
#[derive(Debug)]
pub struct Sale {
    /// Owner of the sale; receives the proceeds.
    pub owner_id: String,
    /// Registry-issued approval id authorizing this listing.
    pub approval_id: u64,
    /// Registry the asset was minted on.
    pub nft_contract_id: String,
    /// The asset's id on that registry.
    pub token_id: String,
    /// Asking price, in the smallest currency unit.
    pub sale_conditions: u128,
}

/// What must hold of a sale record stored under `k`: the key is the record's
/// own listing key.
pub open spec fn sale_record_wf(s: Sale, k: Seq<char>) -> bool {
    k == spec_listing_key(s.nft_contract_id@, s.token_id@)
}

/// The state after recording the sale `s` under `k` in the store and in
/// both of its indices.
pub open spec fn with_sale(cv: ContractV, k: Seq<char>, s: Sale) -> ContractV {
    ContractV {
        sales: cv.sales.insert(k, s),
        by_owner_id: index_with(cv.by_owner_id, s.owner_id@, k),
        by_nft_contract_id: index_with(cv.by_nft_contract_id, s.nft_contract_id@, k),
        ..cv
    }
}

/// Which fault, if any, rejects creating a sale listing; the checks mirror
/// auction intake, without a bidding window.
pub open spec fn create_sale_decision(
    cv: ContractV,
    nft_contract_id: Seq<char>,
    signer: Seq<char>,
    token_id: Seq<char>,
    account: Seq<char>,
    sale_args: Option<SaleArgs>,
    owner_paid_storage: u128,
) -> Result<(), MarketError> {
    if nft_contract_id == signer {
        Err(MarketError::NotRegistryCall)
    } else if account != signer {
        Err(MarketError::WrongOwner)
    } else if owner_paid_storage < (Contract::spec_supply(cv, signer) + 1) * STORAGE_PER_SALE {
        Err(MarketError::InsufficientStorage)
    } else if sale_args is None {
        Err(MarketError::BadPayload)
    } else if cv.sales.contains_key(spec_listing_key(nft_contract_id, token_id)) {
        Err(MarketError::AlreadyListed)
    } else {
        Ok(())
    }
}

/// Which fault, if any, rejects a cancellation by `caller` with
/// `attached_deposit` of the sale under `k`.
pub open spec fn cancel_sale_decision(
    cv: ContractV,
    k: Seq<char>,
    caller: Seq<char>,
    attached_deposit: u128,
) -> Result<(), MarketError> {
    if attached_deposit != 1 {
        Err(MarketError::BadDeposit)
    } else if !cv.sales.contains_key(k) {
        Err(MarketError::NoSale)
    } else if caller != cv.sales[k].owner_id@ {
        Err(MarketError::NotOwner)
    } else {
        Ok(())
    }
}

/// Which fault, if any, rejects a direct purchase of the sale under `k` by
/// `buyer` with `deposit` attached.
pub open spec fn purchase_sale_decision(
    cv: ContractV,
    k: Seq<char>,
    buyer: Seq<char>,
    deposit: u128,
) -> Result<(), MarketError> {
    if !cv.sales.contains_key(k) {
        Err(MarketError::NoSale)
    } else if buyer == cv.sales[k].owner_id@ {
        Err(MarketError::OwnListing)
    } else if deposit < cv.sales[k].sale_conditions {
        Err(MarketError::DepositTooLow)
    } else {
        Ok(())
    }
}

impl Contract {
    /// Intake of a fixed-price listing from a registry notification; the
    /// same authorization, storage and payload checks as auction intake. A
    /// rejected request leaves the state unchanged.
    pub fn on_create_sale(
        &mut self,
        token_id: String,
        account_id: String,
        approval_id: u64,
        sale_args: Option<SaleArgs>,
        nft_contract_id: String,
        signer_id: String,
        owner_paid_storage: u128,
    ) -> (r: Result<(), MarketError>)
        requires
            old(self).wf(),
        ensures
            final(self).wf(),
            (match r {
                Ok(()) => {
                    let k = spec_listing_key(nft_contract_id@, token_id@);
                    &&& create_sale_decision(
                        old(self)@,
                        nft_contract_id@,
                        signer_id@,
                        token_id@,
                        account_id@,
                        sale_args,
                        owner_paid_storage,
                    ) == Ok::<(), MarketError>(())
                    &&& sale_args matches Some(args) && final(self)@ == with_sale(
                        old(self)@,
                        k,
                        (Sale {
                            owner_id: account_id,
                            approval_id,
                            nft_contract_id,
                            token_id,
                            sale_conditions: args.sale_conditions,
                        }),
                    )
                },
                Err(e) => {
                    &&& Err::<(), MarketError>(e) == create_sale_decision(
                        old(self)@,
                        nft_contract_id@,
                        signer_id@,
                        token_id@,
                        account_id@,
                        sale_args,
                        owner_paid_storage,
                    )
                    &&& final(self)@ == old(self)@
                },
            }),
    {
        if nft_contract_id == signer_id {
            return Err(MarketError::NotRegistryCall);
        }
        if !(account_id == signer_id) {
            return Err(MarketError::WrongOwner);
        }
        let supply = self.get_supply_by_owner_id(&signer_id);
        let signer_storage_required = match supply.checked_add(1) {
            Some(more) => match more.checked_mul(STORAGE_PER_SALE) {
                Some(required) => required,
                None => {
                    return Err(MarketError::InsufficientStorage);
                },
            },
            None => {
                return Err(MarketError::InsufficientStorage);
            },
        };
        if owner_paid_storage < signer_storage_required {
            return Err(MarketError::InsufficientStorage);
        }
        let args = match sale_args {
            Some(args) => args,
            None => {
                return Err(MarketError::BadPayload);
            },
        };
        let key = listing_key(&nft_contract_id, &token_id);
        let ghost k = key@;
        let ghost pre = self@;
        if self.sales.contains_key(&key) {
            return Err(MarketError::AlreadyListed);
        }
        let sale = Sale {
            owner_id: account_id.clone(),
            approval_id,
            nft_contract_id: nft_contract_id.clone(),
            token_id: token_id.clone(),
            sale_conditions: args.sale_conditions,
        };
        self.sales.insert(key, sale);
        let index_key = listing_key(&nft_contract_id, &token_id);
        index_insert(&mut self.by_owner_id, &account_id, &index_key);
        index_insert(&mut self.by_nft_contract_id, &nft_contract_id, &index_key);
        proof {
            lemma_indexed_insert(
                pre.sales,
                pre.by_owner_id,
                pre.by_nft_contract_id,
                |s: Sale| s.owner_id@,
                |s: Sale| s.nft_contract_id@,
                k,
                (Sale {
                    owner_id: account_id,
                    approval_id,
                    nft_contract_id,
                    token_id,
                    sale_conditions: args.sale_conditions,
                }),
            );
            assert(self@ =~= with_sale(
                pre,
                k,
                (Sale {
                    owner_id: account_id,
                    approval_id,
                    nft_contract_id,
                    token_id,
                    sale_conditions: args.sale_conditions,
                }),
            ));
        }
        Ok(())
    }

    /// Cancels a sale: demands exactly one attached unit as authorization
    /// and the owner as caller, then removes the listing together with both
    /// index entries. A rejected cancellation leaves the state unchanged.
    pub fn remove_sale(
        &mut self,
        nft_contract_id: String,
        token_id: String,
        predecessor_account_id: String,
        attached_deposit: u128,
    ) -> (r: Result<(), MarketError>)
        requires
            old(self).wf(),
        ensures
            final(self).wf(),
            (match r {
                Ok(()) => {
                    let k = spec_listing_key(nft_contract_id@, token_id@);
                    &&& cancel_sale_decision(
                        old(self)@,
                        k,
                        predecessor_account_id@,
                        attached_deposit,
                    ) == Ok::<(), MarketError>(())
                    &&& final(self)@ == without_sale(old(self)@, k)
                },
                Err(e) => {
                    &&& Err::<(), MarketError>(e) == cancel_sale_decision(
                        old(self)@,
                        spec_listing_key(nft_contract_id@, token_id@),
                        predecessor_account_id@,
                        attached_deposit,
                    )
                    &&& final(self)@ == old(self)@
                },
            }),
    {
        if attached_deposit != 1 {
            return Err(MarketError::BadDeposit);
        }
        let key = listing_key(&nft_contract_id, &token_id);
        let ghost k = key@;
        match self.sales.get(&key) {
            None => {
                return Err(MarketError::NoSale);
            },
            Some(sale) => {
                if !(predecessor_account_id == sale.owner_id) {
                    return Err(MarketError::NotOwner);
                }
                proof {
                    assert(self@.sales.contains_key(k));
                }
            },
        }
        self.internal_remove_sale(nft_contract_id, token_id);
        Ok(())
    }

    /// Phase one of a direct purchase: any buyer but the owner may buy at
    /// or above the asking price. The listing is removed — so a second
    /// attempt on the same key fails with not-found — and the payout
    /// computation on the escrowed price, here the attached deposit itself,
    /// is described for the registry. A rejected purchase leaves the state
    /// unchanged. Phase two is `resolve_auction_purchase`, shared with
    /// auctions.
    pub fn process_purchase(
        &mut self,
        nft_contract_id: String,
        token_id: String,
        buyer_id: String,
        attached_deposit: u128,
    ) -> (r: Result<PayoutRequest, MarketError>)
        requires
            old(self).wf(),
        ensures
            final(self).wf(),
            (match r {
                Ok(req) => {
                    let k = spec_listing_key(nft_contract_id@, token_id@);
                    let s = old(self)@.sales[k];
                    &&& purchase_sale_decision(
                        old(self)@,
                        k,
                        buyer_id@,
                        attached_deposit,
                    ) == Ok::<(), MarketError>(())
                    &&& final(self)@ == without_sale(old(self)@, k)
                    &&& req.buyer_id == buyer_id
                    &&& req.buyer_id@ != s.owner_id@
                    &&& req.token_id@ == token_id@
                    &&& req.approval_id == s.approval_id
                    &&& req.memo@ == "payout from market"@
                    &&& req.price == attached_deposit
                    &&& req.max_len_payout == 10u32
                    &&& req.nft_contract_id@ == nft_contract_id@
                },
                Err(e) => {
                    &&& Err::<(), MarketError>(e) == purchase_sale_decision(
                        old(self)@,
                        spec_listing_key(nft_contract_id@, token_id@),
                        buyer_id@,
                        attached_deposit,
                    )
                    &&& final(self)@ == old(self)@
                },
            }),
    {
        let key = listing_key(&nft_contract_id, &token_id);
        let ghost k = key@;
        let approval_id: u64 = match self.sales.get(&key) {
            None => {
                return Err(MarketError::NoSale);
            },
            Some(sale) => {
                if buyer_id == sale.owner_id {
                    return Err(MarketError::OwnListing);
                }
                if attached_deposit < sale.sale_conditions {
                    return Err(MarketError::DepositTooLow);
                }
                proof {
                    assert(self@.sales.contains_key(k));
                }
                sale.approval_id
            },
        };
        let req = PayoutRequest {
            buyer_id,
            token_id: token_id.clone(),
            approval_id,
            memo: "payout from market".to_owned(),
            price: attached_deposit,
            max_len_payout: 10,
            nft_contract_id: nft_contract_id.clone(),
        };
        self.internal_remove_sale(nft_contract_id, token_id);
        Ok(req)
    }
}

} // verus!
