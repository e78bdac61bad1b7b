use vstd::prelude::*;
use crate::auction_execute::Auction;
use crate::contract::{
    index_remove, index_without, lemma_indexed_remove, Contract, ContractV,
};
use crate::sale::Sale;
use crate::{listing_key, spec_listing_key};

verus! {

/// The state after erasing the auction stored under `k`, together with its
/// entry in each of the two auction indices.
pub open spec fn without_auction(cv: ContractV, k: Seq<char>) -> ContractV {
    let a = cv.auctions[k];
    ContractV {
        auctions: cv.auctions.remove(k),
        by_auction_owner_id: index_without(cv.by_auction_owner_id, a.owner_id@, k),
        auctions_by_nft_contract_id: index_without(
            cv.auctions_by_nft_contract_id,
            a.nft_contract_id@,
            k,
        ),
        ..cv
    }
}

/// The state after erasing the sale stored under `k`, together with its
/// entry in each of the two sale indices.
pub open spec fn without_sale(cv: ContractV, k: Seq<char>) -> ContractV {
    let s = cv.sales[k];
    ContractV {
        sales: cv.sales.remove(k),
        by_owner_id: index_without(cv.by_owner_id, s.owner_id@, k),
        by_nft_contract_id: index_without(cv.by_nft_contract_id, s.nft_contract_id@, k),
        ..cv
    }
}

impl Contract {
    /// Removes a sale and both of its index entries, handing back the
    /// record. The caller must know the key is present; a stored record
    /// without its index entries cannot arise in a well-formed state, so the
    /// internal-consistency fault the indices could otherwise signal is ruled
    /// out here.
    pub fn internal_remove_sale(&mut self, nft_contract_id: String, token_id: String) -> (r: Sale)
        requires
            old(self).wf(),
            old(self)@.sales.contains_key(spec_listing_key(nft_contract_id@, token_id@)),
        ensures
            final(self).wf(),
            final(self)@ == without_sale(old(self)@, spec_listing_key(nft_contract_id@, token_id@)),
            r == old(self)@.sales[spec_listing_key(nft_contract_id@, token_id@)],
    {
        let key = listing_key(&nft_contract_id, &token_id);
        let ghost k = key@;
        let ghost pre = self@;
        let sale = match self.sales.remove(&key) {
            Some(s) => s,
            None => vstd::pervasive::unreached(),
        };
        proof {
            assert(pre.sales.contains_key(k));
            assert(sale == pre.sales[k]);
        }
        index_remove(&mut self.by_owner_id, &sale.owner_id, &key);
        index_remove(&mut self.by_nft_contract_id, &sale.nft_contract_id, &key);
        proof {
            lemma_indexed_remove(
                pre.sales,
                pre.by_owner_id,
                pre.by_nft_contract_id,
                |s: Sale| s.owner_id@,
                |s: Sale| s.nft_contract_id@,
                k,
            );
            assert(self@ =~= without_sale(pre, k));
        }
        sale
    }

    /// Removes an auction and both of its index entries, handing back the
    /// record. The caller must know the key is present; a stored record
    /// without its index entries cannot arise in a well-formed state.
    pub fn internal_remove_auction(&mut self, nft_contract_id: String, token_id: String) -> (r:
        Auction)
        requires
            old(self).wf(),
            old(self)@.auctions.contains_key(spec_listing_key(nft_contract_id@, token_id@)),
        ensures
            final(self).wf(),
            final(self)@ == without_auction(
                old(self)@,
                spec_listing_key(nft_contract_id@, token_id@),
            ),
            r == old(self)@.auctions[spec_listing_key(nft_contract_id@, token_id@)],
    {
        let key = listing_key(&nft_contract_id, &token_id);
        let ghost k = key@;
        let ghost pre = self@;
        let auction = match self.auctions.remove(&key) {
            Some(a) => a,
            None => vstd::pervasive::unreached(),
        };
        proof {
            assert(pre.auctions.contains_key(k));
            assert(auction == pre.auctions[k]);
        }
        index_remove(&mut self.by_auction_owner_id, &auction.owner_id, &key);
        index_remove(&mut self.auctions_by_nft_contract_id, &auction.nft_contract_id, &key);
        proof {
            lemma_indexed_remove(
                pre.auctions,
                pre.by_auction_owner_id,
                pre.auctions_by_nft_contract_id,
                |a: Auction| a.owner_id@,
                |a: Auction| a.nft_contract_id@,
                k,
            );
            assert(self@ =~= without_auction(pre, k));
        }
        auction
    }
}

} // verus!
