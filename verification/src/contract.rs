use vstd::prelude::*;
use crate::auction_execute::{auction_record_wf, Auction};
use crate::sale::{sale_record_wf, Sale};
use crate::strmap::StrMap;
use crate::strset::StrSet;

verus! {

/// The marketplace state: the two listing stores, each with its pair of
/// derived indices. The indices are rebuildable companions of the stores,
/// never a second source of truth; `wf` pins them to the stores.
pub struct Contract {
    /// Auctions, keyed by listing key.
    pub auctions: StrMap<Auction>,
    /// Listing keys of each owner's auctions.
    pub by_auction_owner_id: StrMap<StrSet>,
    /// Listing keys of each registry's auctions.
    pub auctions_by_nft_contract_id: StrMap<StrSet>,
    /// Fixed-price sales, keyed by listing key.
    pub sales: StrMap<Sale>,
    /// Listing keys of each owner's sales.
    pub by_owner_id: StrMap<StrSet>,
    /// Listing keys of each registry's sales.
    pub by_nft_contract_id: StrMap<StrSet>,
}

/// The mathematical content of the marketplace state.
#[verifier::ext_equal]
pub ghost struct ContractV {
    pub auctions: Map<Seq<char>, Auction>,
    pub by_auction_owner_id: Map<Seq<char>, Set<Seq<char>>>,
    pub auctions_by_nft_contract_id: Map<Seq<char>, Set<Seq<char>>>,
    pub sales: Map<Seq<char>, Sale>,
    pub by_owner_id: Map<Seq<char>, Set<Seq<char>>>,
    pub by_nft_contract_id: Map<Seq<char>, Set<Seq<char>>>,
}

/// The key sets an index table holds, by index key.
pub open spec fn index_view(m: Map<Seq<char>, StrSet>) -> Map<Seq<char>, Set<Seq<char>>> {
    m.map_values(|s: StrSet| s@)
}

impl View for Contract {
    type V = ContractV;

    open spec fn view(&self) -> ContractV {
        ContractV {
            auctions: self.auctions@,
            by_auction_owner_id: index_view(self.by_auction_owner_id@),
            auctions_by_nft_contract_id: index_view(self.auctions_by_nft_contract_id@),
            sales: self.sales@,
            by_owner_id: index_view(self.by_owner_id@),
            by_nft_contract_id: index_view(self.by_nft_contract_id@),
        }
    }
}

/// Index consistency between a primary store and its two indices: every
/// stored record is referenced from exactly the right key set of each index,
/// every index entry points back to a stored record, and no empty key set is
/// ever stored.
pub open spec fn indexed<V>(
    primary: Map<Seq<char>, V>,
    by_a: Map<Seq<char>, Set<Seq<char>>>,
    by_b: Map<Seq<char>, Set<Seq<char>>>,
    a_of: spec_fn(V) -> Seq<char>,
    b_of: spec_fn(V) -> Seq<char>,
) -> bool {
    &&& (forall|k: Seq<char>| #[trigger] primary.contains_key(k) ==> {
        &&& by_a.contains_key(a_of(primary[k]))
        &&& by_a[a_of(primary[k])].contains(k)
        &&& by_b.contains_key(b_of(primary[k]))
        &&& by_b[b_of(primary[k])].contains(k)
    })
    &&& (forall|o: Seq<char>, k: Seq<char>|
        by_a.contains_key(o) && #[trigger] by_a[o].contains(k) ==> primary.contains_key(k)
            && a_of(primary[k]) == o)
    &&& (forall|r: Seq<char>, k: Seq<char>|
        by_b.contains_key(r) && #[trigger] by_b[r].contains(k) ==> primary.contains_key(k)
            && b_of(primary[k]) == r)
    &&& (forall|o: Seq<char>| #[trigger] by_a.contains_key(o) ==> by_a[o] !=
        Set::<Seq<char>>::empty())
    &&& (forall|r: Seq<char>| #[trigger] by_b.contains_key(r) ==> by_b[r] !=
        Set::<Seq<char>>::empty())
}

/// An index table after recording `k` under the index key `o`.
pub open spec fn index_with(
    m: Map<Seq<char>, Set<Seq<char>>>,
    o: Seq<char>,
    k: Seq<char>,
) -> Map<Seq<char>, Set<Seq<char>>> {
    if m.contains_key(o) {
        m.insert(o, m[o].insert(k))
    } else {
        m.insert(o, Set::<Seq<char>>::empty().insert(k))
    }
}

/// An index table after erasing `k` under the index key `o`; a key set that
/// becomes empty is dropped rather than stored.
pub open spec fn index_without(
    m: Map<Seq<char>, Set<Seq<char>>>,
    o: Seq<char>,
    k: Seq<char>,
) -> Map<Seq<char>, Set<Seq<char>>> {
    let s = m[o].remove(k);
    if s == Set::<Seq<char>>::empty() {
        m.remove(o)
    } else {
        m.insert(o, s)
    }
}

/// Recording a fresh key keeps a store and its indices consistent.
pub proof fn lemma_indexed_insert<V>(
    primary: Map<Seq<char>, V>,
    by_a: Map<Seq<char>, Set<Seq<char>>>,
    by_b: Map<Seq<char>, Set<Seq<char>>>,
    a_of: spec_fn(V) -> Seq<char>,
    b_of: spec_fn(V) -> Seq<char>,
    k: Seq<char>,
    v: V,
)
    requires
        indexed(primary, by_a, by_b, a_of, b_of),
        !primary.contains_key(k),
    ensures
        indexed(
            primary.insert(k, v),
            index_with(by_a, a_of(v), k),
            index_with(by_b, b_of(v), k),
            a_of,
            b_of,
        ),
{
    let p1 = primary.insert(k, v);
    let ba1 = index_with(by_a, a_of(v), k);
    let bb1 = index_with(by_b, b_of(v), k);
    assert(ba1[a_of(v)].contains(k));
    assert(bb1[b_of(v)].contains(k));
    assert forall|k2: Seq<char>| #[trigger] p1.contains_key(k2) implies {
        &&& ba1.contains_key(a_of(p1[k2]))
        &&& ba1[a_of(p1[k2])].contains(k2)
        &&& bb1.contains_key(b_of(p1[k2]))
        &&& bb1[b_of(p1[k2])].contains(k2)
    } by {
        if k2 != k {
            assert(primary.contains_key(k2));
            assert(by_a[a_of(primary[k2])].contains(k2));
            assert(by_b[b_of(primary[k2])].contains(k2));
        }
    }
    assert forall|o: Seq<char>, k2: Seq<char>|
        ba1.contains_key(o) && #[trigger] ba1[o].contains(k2) implies p1.contains_key(k2)
        && a_of(p1[k2]) == o by {
        if o == a_of(v) {
            if k2 != k {
                assert(by_a.contains_key(o) && by_a[o].contains(k2));
            }
        } else {
            assert(by_a[o].contains(k2));
        }
    }
    assert forall|r: Seq<char>, k2: Seq<char>|
        bb1.contains_key(r) && #[trigger] bb1[r].contains(k2) implies p1.contains_key(k2)
        && b_of(p1[k2]) == r by {
        if r == b_of(v) {
            if k2 != k {
                assert(by_b.contains_key(r) && by_b[r].contains(k2));
            }
        } else {
            assert(by_b[r].contains(k2));
        }
    }
    assert forall|o: Seq<char>| #[trigger] ba1.contains_key(o) implies ba1[o] !=
        Set::<Seq<char>>::empty() by {
        if o == a_of(v) {
            assert(ba1[o].contains(k));
        } else {
            assert(by_a.contains_key(o));
        }
    }
    assert forall|r: Seq<char>| #[trigger] bb1.contains_key(r) implies bb1[r] !=
        Set::<Seq<char>>::empty() by {
        if r == b_of(v) {
            assert(bb1[r].contains(k));
        } else {
            assert(by_b.contains_key(r));
        }
    }
}

/// Replacing a record in place, without moving it to another owner or
/// registry, keeps a store and its indices consistent.
pub proof fn lemma_indexed_update<V>(
    primary: Map<Seq<char>, V>,
    by_a: Map<Seq<char>, Set<Seq<char>>>,
    by_b: Map<Seq<char>, Set<Seq<char>>>,
    a_of: spec_fn(V) -> Seq<char>,
    b_of: spec_fn(V) -> Seq<char>,
    k: Seq<char>,
    v: V,
)
    requires
        indexed(primary, by_a, by_b, a_of, b_of),
        primary.contains_key(k),
        a_of(v) == a_of(primary[k]),
        b_of(v) == b_of(primary[k]),
    ensures
        indexed(primary.insert(k, v), by_a, by_b, a_of, b_of),
{
    let p1 = primary.insert(k, v);
    assert forall|k2: Seq<char>| #[trigger] p1.contains_key(k2) implies {
        &&& by_a.contains_key(a_of(p1[k2]))
        &&& by_a[a_of(p1[k2])].contains(k2)
        &&& by_b.contains_key(b_of(p1[k2]))
        &&& by_b[b_of(p1[k2])].contains(k2)
    } by {
        assert(primary.contains_key(k2));
        assert(by_a[a_of(primary[k2])].contains(k2));
        assert(by_b[b_of(primary[k2])].contains(k2));
    }
    assert forall|o: Seq<char>, k2: Seq<char>|
        by_a.contains_key(o) && #[trigger] by_a[o].contains(k2) implies p1.contains_key(k2)
        && a_of(p1[k2]) == o by {
        assert(primary.contains_key(k2) && a_of(primary[k2]) == o);
    }
    assert forall|r: Seq<char>, k2: Seq<char>|
        by_b.contains_key(r) && #[trigger] by_b[r].contains(k2) implies p1.contains_key(k2)
        && b_of(p1[k2]) == r by {
        assert(primary.contains_key(k2) && b_of(primary[k2]) == r);
    }
}

/// Erasing a key from the store and from both its index entries keeps them
/// consistent.
pub proof fn lemma_indexed_remove<V>(
    primary: Map<Seq<char>, V>,
    by_a: Map<Seq<char>, Set<Seq<char>>>,
    by_b: Map<Seq<char>, Set<Seq<char>>>,
    a_of: spec_fn(V) -> Seq<char>,
    b_of: spec_fn(V) -> Seq<char>,
    k: Seq<char>,
)
    requires
        indexed(primary, by_a, by_b, a_of, b_of),
        primary.contains_key(k),
    ensures
        indexed(
            primary.remove(k),
            index_without(by_a, a_of(primary[k]), k),
            index_without(by_b, b_of(primary[k]), k),
            a_of,
            b_of,
        ),
{
    let o0 = a_of(primary[k]);
    let r0 = b_of(primary[k]);
    let p1 = primary.remove(k);
    let ba1 = index_without(by_a, o0, k);
    let bb1 = index_without(by_b, r0, k);
    assert(by_a.contains_key(o0) && by_a[o0].contains(k));
    assert(by_b.contains_key(r0) && by_b[r0].contains(k));
    assert forall|k2: Seq<char>| #[trigger] p1.contains_key(k2) implies {
        &&& ba1.contains_key(a_of(p1[k2]))
        &&& ba1[a_of(p1[k2])].contains(k2)
        &&& bb1.contains_key(b_of(p1[k2]))
        &&& bb1[b_of(p1[k2])].contains(k2)
    } by {
        assert(primary.contains_key(k2));
        let o2 = a_of(primary[k2]);
        let r2 = b_of(primary[k2]);
        assert(by_a[o2].contains(k2));
        assert(by_b[r2].contains(k2));
        if o2 == o0 {
            assert(by_a[o0].remove(k).contains(k2));
        }
        if r2 == r0 {
            assert(by_b[r0].remove(k).contains(k2));
        }
    }
    assert forall|o: Seq<char>, k2: Seq<char>|
        ba1.contains_key(o) && #[trigger] ba1[o].contains(k2) implies p1.contains_key(k2)
        && a_of(p1[k2]) == o by {
        if o == o0 {
            assert(by_a[o0].remove(k).contains(k2));
            assert(by_a[o0].contains(k2) && k2 != k);
        } else {
            assert(by_a[o].contains(k2));
            assert(a_of(primary[k2]) == o);
            assert(k2 != k);
        }
    }
    assert forall|r: Seq<char>, k2: Seq<char>|
        bb1.contains_key(r) && #[trigger] bb1[r].contains(k2) implies p1.contains_key(k2)
        && b_of(p1[k2]) == r by {
        if r == r0 {
            assert(by_b[r0].remove(k).contains(k2));
            assert(by_b[r0].contains(k2) && k2 != k);
        } else {
            assert(by_b[r].contains(k2));
            assert(b_of(primary[k2]) == r);
            assert(k2 != k);
        }
    }
    assert forall|o: Seq<char>| #[trigger] ba1.contains_key(o) implies ba1[o] !=
        Set::<Seq<char>>::empty() by {
        if o != o0 {
            assert(by_a.contains_key(o));
        }
    }
    assert forall|r: Seq<char>| #[trigger] bb1.contains_key(r) implies bb1[r] !=
        Set::<Seq<char>>::empty() by {
        if r != r0 {
            assert(by_b.contains_key(r));
        }
    }
}

/// What must hold of the marketplace state at every public entry and exit:
/// both stores are consistent with their indices, and every stored record is
/// well formed under its key.
pub open spec fn wf_v(cv: ContractV) -> bool {
    &&& indexed(
        cv.auctions,
        cv.by_auction_owner_id,
        cv.auctions_by_nft_contract_id,
        |a: Auction| a.owner_id@,
        |a: Auction| a.nft_contract_id@,
    )
    &&& indexed(
        cv.sales,
        cv.by_owner_id,
        cv.by_nft_contract_id,
        |s: Sale| s.owner_id@,
        |s: Sale| s.nft_contract_id@,
    )
    &&& (forall|k: Seq<char>| #[trigger] cv.auctions.contains_key(k) ==> auction_record_wf(
        cv.auctions[k],
        k,
    ))
    &&& (forall|k: Seq<char>| #[trigger] cv.sales.contains_key(k) ==> sale_record_wf(
        cv.sales[k],
        k,
    ))
}

/// Records `key` in an index table under `owner`, creating the key set if the
/// owner had none.
pub(crate) fn index_insert(index: &mut StrMap<StrSet>, owner: &String, key: &String)
    ensures
        index_view(final(index)@) == index_with(index_view(old(index)@), owner@, key@),
{
    let mut s = match index.remove(owner) {
        Some(s) => s,
        None => StrSet::new(),
    };
    s.insert(key.clone());
    index.insert(owner.clone(), s);
    proof {
        if index_view(old(index)@).contains_key(owner@) {
            assert(index_view(final(index)@) =~~= index_with(
                index_view(old(index)@),
                owner@,
                key@,
            ));
        } else {
            assert(index_view(final(index)@) =~~= index_with(
                index_view(old(index)@),
                owner@,
                key@,
            ));
        }
    }
}

/// Erases `key` from the index table entry of `owner`; the entry itself is
/// dropped when its key set becomes empty.
pub(crate) fn index_remove(index: &mut StrMap<StrSet>, owner: &String, key: &String)
    requires
        index_view(old(index)@).contains_key(owner@),
    ensures
        index_view(final(index)@) == index_without(index_view(old(index)@), owner@, key@),
{
    let mut s = match index.remove(owner) {
        Some(s) => s,
        None => vstd::pervasive::unreached(),
    };
    s.remove(key);
    if s.is_empty() {
        proof {
            assert(index_view(final(index)@) =~~= index_without(
                index_view(old(index)@),
                owner@,
                key@,
            ));
        }
    } else {
        index.insert(owner.clone(), s);
        proof {
            assert(index_view(final(index)@) =~~= index_without(
                index_view(old(index)@),
                owner@,
                key@,
            ));
        }
    }
}

impl Contract {
    /// Whether the state is well formed; see `wf_v`.
    pub open spec fn wf(&self) -> bool {
        wf_v(self@)
    }

    /// A marketplace with no listings.
    pub fn new() -> (r: Self)
        ensures
            r.wf(),
            r@.auctions == Map::<Seq<char>, Auction>::empty(),
            r@.sales == Map::<Seq<char>, Sale>::empty(),
            r@.by_auction_owner_id == Map::<Seq<char>, Set<Seq<char>>>::empty(),
            r@.auctions_by_nft_contract_id == Map::<Seq<char>, Set<Seq<char>>>::empty(),
            r@.by_owner_id == Map::<Seq<char>, Set<Seq<char>>>::empty(),
            r@.by_nft_contract_id == Map::<Seq<char>, Set<Seq<char>>>::empty(),
    {
        let r = Contract {
            auctions: StrMap::new(),
            by_auction_owner_id: StrMap::new(),
            auctions_by_nft_contract_id: StrMap::new(),
            sales: StrMap::new(),
            by_owner_id: StrMap::new(),
            by_nft_contract_id: StrMap::new(),
        };
        proof {
            assert(index_view(r.by_auction_owner_id@) =~= Map::<Seq<char>, Set<Seq<char>>>::empty());
            assert(index_view(r.auctions_by_nft_contract_id@) =~= Map::<
                Seq<char>,
                Set<Seq<char>>,
            >::empty());
            assert(index_view(r.by_owner_id@) =~= Map::<Seq<char>, Set<Seq<char>>>::empty());
            assert(index_view(r.by_nft_contract_id@) =~= Map::<Seq<char>, Set<Seq<char>>>::empty());
        }
        r
    }

    /// How many listings, sales and auctions together, the owner currently
    /// has.
    pub open spec fn spec_supply(cv: ContractV, owner: Seq<char>) -> int {
        (if cv.by_auction_owner_id.contains_key(owner) {
            cv.by_auction_owner_id[owner].len() as int
        } else {
            0
        }) + (if cv.by_owner_id.contains_key(owner) {
            cv.by_owner_id[owner].len() as int
        } else {
            0
        })
    }

    /// The storage cost of one listing, as the ledger charges it.
    pub fn storage_minimum_balance(&self) -> (r: u128)
        ensures
            r == crate::STORAGE_PER_SALE,
    {
        crate::STORAGE_PER_SALE
    }

    /// Counts the owner's current listings, sales and auctions together.
    pub fn get_supply_by_owner_id(&self, account_id: &String) -> (r: u128)
        ensures
            r == Self::spec_supply(self@, account_id@),
    {
        let a: u128 = match self.by_auction_owner_id.get(account_id) {
            Some(s) => s.len() as u128,
            None => 0,
        };
        let b: u128 = match self.by_owner_id.get(account_id) {
            Some(s) => s.len() as u128,
            None => 0,
        };
        a + b
    }
}

} // verus!
