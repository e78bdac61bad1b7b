//! A marketplace settlement core for non-fungible assets: fixed-price sales
//! and time-boxed ascending auctions. The listing stores and their derived
//! owner and registry indices are kept provably consistent, bids obey the
//! auction's window and ascending-price rules, and a two-phase purchase
//! settlement reconciles an untrusted downstream payout against the escrowed
//! price, falling back to a full refund of the buyer on any doubt.

use vstd::prelude::*;
use vstd::string::StringExecFns;

pub mod auction_callback;
pub mod auction_execute;
pub mod contract;
pub mod internal;
pub mod laws;
pub mod sale;
pub mod strmap;
pub mod strset;

verus! {

/// Delimiter that joins a registry id and an asset id into one listing key.
/// It is reserved: neither component may contain it.
pub const DELIMETER: &'static str = ".";

/// Fixed fee retained by the marketplace when an outbid leader is refunded.
pub const ENROLL_FEE: u128 = 10;

/// Storage cost charged per active listing, in the smallest currency unit.
pub const STORAGE_PER_SALE: u128 = 10_000_000_000_000_000_000_000;

/// The key under which a listing for `token_id` on the registry
/// `nft_contract_id` is stored.
pub open spec fn spec_listing_key(nft_contract_id: Seq<char>, token_id: Seq<char>) -> Seq<char> {
    nft_contract_id + DELIMETER@ + token_id
}

/// Joins a registry id and a token id into the listing key.
pub fn listing_key(nft_contract_id: &String, token_id: &String) -> (r: String)
    ensures
        r@ == spec_listing_key(nft_contract_id@, token_id@),
{
    let mut r = nft_contract_id.clone();
    r.append(DELIMETER);
    r.append(token_id.as_str());
    r
}

/// True when the reserved delimiter does not occur in the string.
pub open spec fn delimiter_free(s: Seq<char>) -> bool {
    forall|i: int| 0 <= i < s.len() ==> #[trigger] s[i] != DELIMETER@[0]
}

/// Listing keys are injective: since the delimiter is reserved out of the
/// registry id, two distinct (registry, asset) pairs never collide on one
/// key, so one store entry stands for exactly one listing.
pub proof fn lemma_listing_key_injective(c1: Seq<char>, t1: Seq<char>, c2: Seq<char>, t2: Seq<char>)
    requires
        delimiter_free(c1),
        delimiter_free(c2),
        spec_listing_key(c1, t1) == spec_listing_key(c2, t2),
    ensures
        c1 == c2,
        t1 == t2,
{
    reveal_strlit(".");
    let d = DELIMETER@;
    let s1 = spec_listing_key(c1, t1);
    let s2 = spec_listing_key(c2, t2);
    assert(s1[c1.len() as int] == d[0]);
    assert(s2[c2.len() as int] == d[0]);
    if c1.len() < c2.len() {
        assert(s2[c1.len() as int] == c2[c1.len() as int]);
        assert(false);
    }
    if c2.len() < c1.len() {
        assert(s1[c2.len() as int] == c1[c2.len() as int]);
        assert(false);
    }
    assert forall|i: int| 0 <= i < c1.len() implies c1[i] == c2[i] by {
        assert(s1[i] == c1[i]);
        assert(s2[i] == c2[i]);
    }
    assert(c1 =~= c2);
    let cd1 = c1 + d;
    let cd2 = c2 + d;
    assert(s1.len() == s2.len());
    assert(t1.len() == t2.len());
    assert forall|i: int| 0 <= i < t1.len() implies t1[i] == t2[i] by {
        assert((cd1 + t1)[cd1.len() + i] == t1[i]);
        assert((cd2 + t2)[cd2.len() + i] == t2[i]);
    }
    assert(t1 =~= t2);
}

/// Why an operation was rejected. A rejected operation never mutates state.
#[derive(Clone, Copy, Debug, PartialEq, Eq, Structural)]
pub enum MarketError {
    /// No auction is stored under the requested key.
    NoAuction,
    /// No sale is stored under the requested key.
    NoSale,
    /// The caller is not the owner of the listing.
    NotOwner,
    /// Cancellation demands exactly one attached unit as authorization.
    BadDeposit,
    /// Bidding before the auction's start time.
    AuctionNotStarted,
    /// Bidding after the auction's end time.
    AuctionAlreadyDone,
    /// The bid does not strictly exceed the current price.
    BidTooLow,
    /// The bid does not cover the enrollment fee.
    BidBelowFee,
    /// The owner may not bid on or buy their own listing.
    OwnListing,
    /// Settling an auction before its end time.
    AuctionNotOver,
    /// Settling an auction that never received a bid.
    NoWinner,
    /// The funds or the asset of this listing were already claimed.
    AlreadyClaimed,
    /// The attached deposit is below the escrowed price.
    DepositTooLow,
    /// Intake was not invoked by the registry on behalf of a caller.
    NotRegistryCall,
    /// The declared owner is not the signer of the transaction.
    WrongOwner,
    /// The owner's paid storage balance does not cover one more listing.
    InsufficientStorage,
    /// The message payload did not parse into a listing descriptor.
    BadPayload,
    /// The auction's end time does not lie after its start time.
    BadTimeWindow,
    /// A listing is already stored under this key.
    AlreadyListed,
}

/// An instruction to send funds to an account, to be performed by the
/// platform's fire-and-forget transfer primitive.
#[derive(Debug, PartialEq, Eq)]
pub struct Transfer {
    pub to: String,
    pub amount: u128,
}

} // verus!
