use vstd::prelude::*;

verus! {

/// A finite set of strings, addressed by character sequence. It backs the
/// per-owner and per-registry listing indices.
pub struct StrSet {
    items: Vec<String>,
}

impl StrSet {
    /// The mathematical set described by a sequence of strings.
    pub open spec fn set_of(s: Seq<String>) -> Set<Seq<char>>
        decreases s.len(),
    {
        if s.len() == 0 {
            Set::<Seq<char>>::empty()
        } else {
            Self::set_of(s.drop_last()).insert(s.last()@)
        }
    }

    pub open spec fn distinct(s: Seq<String>) -> bool {
        forall|i: int, j: int| 0 <= i < j < s.len() ==> #[trigger] s[i]@ != #[trigger] s[j]@
    }

    #[verifier::type_invariant]
    spec fn inv(self) -> bool {
        Self::distinct(self.items@)
    }

    pub closed spec fn view(&self) -> Set<Seq<char>> {
        Self::set_of(self.items@)
    }

    proof fn lemma_contains(s: Seq<String>, k: Seq<char>)
        ensures
            Self::set_of(s).contains(k) <==> (exists|i: int|
                0 <= i < s.len() && #[trigger] s[i]@ == k),
        decreases s.len(),
    {
        if s.len() > 0 {
            Self::lemma_contains(s.drop_last(), k);
            if s.last()@ == k {
                assert(s[s.len() - 1]@ == k);
            } else if Self::set_of(s.drop_last()).contains(k) {
                let i = choose|i: int|
                    0 <= i < s.drop_last().len() && #[trigger] s.drop_last()[i]@ == k;
                assert(s[i]@ == k);
            } else if exists|i: int| 0 <= i < s.len() && #[trigger] s[i]@ == k {
                let i = choose|i: int| 0 <= i < s.len() && #[trigger] s[i]@ == k;
                assert(s.drop_last()[i]@ == k);
            }
        }
    }

    proof fn lemma_len(s: Seq<String>)
        requires
            Self::distinct(s),
        ensures
            Self::set_of(s).finite(),
            Self::set_of(s).len() == s.len(),
        decreases s.len(),
    {
        if s.len() > 0 {
            Self::lemma_len(s.drop_last());
            Self::lemma_contains(s.drop_last(), s.last()@);
        }
    }

    proof fn lemma_remove_at(s: Seq<String>, i: int)
        requires
            Self::distinct(s),
            0 <= i < s.len(),
        ensures
            Self::distinct(s.remove(i)),
            Self::set_of(s.remove(i)) == Self::set_of(s).remove(s[i]@),
        decreases s.len(),
    {
        let k = s[i]@;
        if i == s.len() - 1 {
            assert(s.remove(i) =~= s.drop_last());
            Self::lemma_contains(s.drop_last(), k);
            assert(Self::set_of(s.drop_last()) =~= Self::set_of(s).remove(k));
        } else {
            Self::lemma_remove_at(s.drop_last(), i);
            assert(s.remove(i).drop_last() =~= s.drop_last().remove(i));
            assert(s.remove(i).last() == s.last());
            assert(Self::set_of(s.remove(i)) == Self::set_of(s.drop_last().remove(i)).insert(
                s.last()@,
            ));
            assert(Self::set_of(s.drop_last()).remove(k).insert(s.last()@) =~= Self::set_of(
                s.drop_last(),
            ).insert(s.last()@).remove(k));
        }
    }

    proof fn lemma_push(s: Seq<String>, k: String)
        ensures
            Self::set_of(s.push(k)) == Self::set_of(s).insert(k@),
    {
        assert(s.push(k).drop_last() =~= s);
        assert(s.push(k).last() == k);
    }

    /// The empty set.
    pub fn new() -> (r: Self)
        ensures
            r@ == Set::<Seq<char>>::empty(),
    {
        StrSet { items: Vec::new() }
    }

    /// True when the string is a member.
    pub fn contains(&self, k: &String) -> (r: bool)
        ensures
            r == self@.contains(k@),
    {
        proof {
            use_type_invariant(&*self);
        }
        let n = self.items.len();
        let mut i: usize = 0;
        while i < n
            invariant
                n == self.items.len(),
                0 <= i <= n,
                forall|j: int| 0 <= j < i ==> #[trigger] self.items@[j]@ != k@,
            decreases n - i,
        {
            if self.items[i] == *k {
                proof {
                    Self::lemma_contains(self.items@, k@);
                }
                return true;
            }
            i = i + 1;
        }
        proof {
            Self::lemma_contains(self.items@, k@);
        }
        false
    }

    /// Number of members.
    pub fn len(&self) -> (n: usize)
        ensures
            n == self@.len(),
            self@.finite(),
    {
        proof {
            use_type_invariant(&*self);
            Self::lemma_len(self.items@);
        }
        self.items.len()
    }

    /// True when the set has no member.
    pub fn is_empty(&self) -> (r: bool)
        ensures
            r == (self@ == Set::<Seq<char>>::empty()),
    {
        proof {
            use_type_invariant(&*self);
            Self::lemma_len(self.items@);
            if self.items@.len() > 0 {
                Self::lemma_contains(self.items@, self.items@[0]@);
                assert(self@.contains(self.items@[0]@));
            } else {
                assert(self@ =~= Set::<Seq<char>>::empty());
            }
        }
        self.items.len() == 0
    }

    /// Adds a string to the set.
    pub fn insert(&mut self, k: String)
        ensures
            final(self)@ == old(self)@.insert(k@),
    {
        proof {
            use_type_invariant(&*self);
        }
        let mut items: Vec<String> = Vec::new();
        core::mem::swap(&mut items, &mut self.items);
        let n = items.len();
        let mut i: usize = 0;
        let mut present: bool = false;
        while i < n
            invariant
                Self::distinct(items@),
                n == items.len(),
                0 <= i <= n,
                present ==> Self::set_of(items@).contains(k@),
                !present ==> forall|j: int| 0 <= j < i ==> #[trigger] items@[j]@ != k@,
            decreases n - i,
        {
            if !present && items[i] == k {
                proof {
                    Self::lemma_contains(items@, k@);
                }
                present = true;
            }
            i = i + 1;
        }
        if present {
            proof {
                assert(Self::set_of(items@).insert(k@) =~= Self::set_of(items@));
            }
        } else {
            proof {
                Self::lemma_contains(items@, k@);
                Self::lemma_push(items@, k);
            }
            items.push(k);
        }
        self.items = items;
    }

    /// Removes a string from the set.
    pub fn remove(&mut self, k: &String)
        ensures
            final(self)@ == old(self)@.remove(k@),
    {
        proof {
            use_type_invariant(&*self);
        }
        let mut items: Vec<String> = Vec::new();
        core::mem::swap(&mut items, &mut self.items);
        let n = items.len();
        let mut i: usize = 0;
        let mut hit: Option<usize> = None;
        while i < n
            invariant
                Self::distinct(items@),
                n == items.len(),
                0 <= i <= n,
                (match hit {
                    Some(h) => h < i && items@[h as int]@ == k@,
                    None => forall|j: int| 0 <= j < i ==> #[trigger] items@[j]@ != k@,
                }),
            decreases n - i,
        {
            if hit.is_none() && items[i] == *k {
                hit = Some(i);
            }
            i = i + 1;
        }
        match hit {
            Some(h) => {
                proof {
                    Self::lemma_remove_at(items@, h as int);
                }
                items.remove(h);
            },
            None => {
                proof {
                    Self::lemma_contains(items@, k@);
                    assert(Self::set_of(items@).remove(k@) =~= Self::set_of(items@));
                }
            },
        }
        self.items = items;
    }
}

} // verus!
