use vstd::prelude::*;

verus! {

/// A finite map from string keys to values, addressed by the key's character
/// sequence. It is backed by an association vector whose keys are pairwise
/// distinct, so it doubles as the reference model for every table the
/// marketplace keeps.
pub struct StrMap<V> {
    entries: Vec<(String, V)>,
}

impl<V> StrMap<V> {
    /// The mathematical map described by an association sequence; a later
    /// entry for the same key wins.
    pub open spec fn map_of(s: Seq<(String, V)>) -> Map<Seq<char>, V>
        decreases s.len(),
    {
        if s.len() == 0 {
            Map::<Seq<char>, V>::empty()
        } else {
            Self::map_of(s.drop_last()).insert(s.last().0@, s.last().1)
        }
    }

    pub open spec fn distinct_keys(s: Seq<(String, V)>) -> bool {
        forall|i: int, j: int|
            0 <= i < j < s.len() ==> #[trigger] s[i].0@ != #[trigger] s[j].0@
    }

    #[verifier::type_invariant]
    spec fn inv(self) -> bool {
        Self::distinct_keys(self.entries@)
    }

    pub closed spec fn view(&self) -> Map<Seq<char>, V> {
        Self::map_of(self.entries@)
    }

    proof fn lemma_contains(s: Seq<(String, V)>, k: Seq<char>)
        ensures
            Self::map_of(s).contains_key(k) <==> (exists|i: int|
                0 <= i < s.len() && #[trigger] s[i].0@ == k),
        decreases s.len(),
    {
        if s.len() > 0 {
            Self::lemma_contains(s.drop_last(), k);
            if s.last().0@ == k {
                assert(s[s.len() - 1].0@ == k);
            } else if Self::map_of(s.drop_last()).contains_key(k) {
                let i = choose|i: int|
                    0 <= i < s.drop_last().len() && #[trigger] s.drop_last()[i].0@ == k;
                assert(s[i].0@ == k);
            } else if exists|i: int| 0 <= i < s.len() && #[trigger] s[i].0@ == k {
                let i = choose|i: int| 0 <= i < s.len() && #[trigger] s[i].0@ == k;
                assert(s.drop_last()[i].0@ == k);
            }
        }
    }

    proof fn lemma_index(s: Seq<(String, V)>, i: int)
        requires
            Self::distinct_keys(s),
            0 <= i < s.len(),
        ensures
            Self::map_of(s).contains_key(s[i].0@),
            Self::map_of(s)[s[i].0@] == s[i].1,
        decreases s.len(),
    {
        if i < s.len() - 1 {
            Self::lemma_index(s.drop_last(), i);
            assert(s.drop_last()[i] == s[i]);
        }
    }

    proof fn lemma_len(s: Seq<(String, V)>)
        requires
            Self::distinct_keys(s),
        ensures
            Self::map_of(s).dom().finite(),
            Self::map_of(s).len() == s.len(),
        decreases s.len(),
    {
        if s.len() > 0 {
            Self::lemma_len(s.drop_last());
            Self::lemma_contains(s.drop_last(), s.last().0@);
        }
    }

    proof fn lemma_remove_at(s: Seq<(String, V)>, i: int)
        requires
            Self::distinct_keys(s),
            0 <= i < s.len(),
        ensures
            Self::distinct_keys(s.remove(i)),
            Self::map_of(s.remove(i)) == Self::map_of(s).remove(s[i].0@),
        decreases s.len(),
    {
        let k = s[i].0@;
        if i == s.len() - 1 {
            assert(s.remove(i) =~= s.drop_last());
            Self::lemma_contains(s.drop_last(), k);
            assert(!Self::map_of(s.drop_last()).contains_key(k));
            assert(Self::map_of(s.drop_last()) =~= Self::map_of(s).remove(k));
        } else {
            Self::lemma_remove_at(s.drop_last(), i);
            assert(s.remove(i).drop_last() =~= s.drop_last().remove(i));
            assert(s.remove(i).last() == s.last());
            assert(Self::map_of(s.remove(i)) == Self::map_of(s.drop_last().remove(i)).insert(
                s.last().0@,
                s.last().1,
            ));
            assert(Self::map_of(s.drop_last()).remove(k).insert(s.last().0@, s.last().1)
                =~= Self::map_of(s.drop_last()).insert(s.last().0@, s.last().1).remove(k));
        }
    }

    proof fn lemma_push(s: Seq<(String, V)>, k: String, v: V)
        ensures
            Self::map_of(s.push((k, v))) == Self::map_of(s).insert(k@, v),
    {
        assert(s.push((k, v)).drop_last() =~= s);
        assert(s.push((k, v)).last() == (k, v));
    }

    /// The empty map.
    pub fn new() -> (r: Self)
        ensures
            r@ == Map::<Seq<char>, V>::empty(),
    {
        StrMap { entries: Vec::new() }
    }

    /// Looks a key up, yielding a reference to the held value when present.
    pub fn get(&self, k: &String) -> (r: Option<&V>)
        ensures
            (match r {
                Some(v) => self@.contains_key(k@) && *v == self@[k@],
                None => !self@.contains_key(k@),
            }),
    {
        proof {
            use_type_invariant(&*self);
        }
        let n = self.entries.len();
        let mut i: usize = 0;
        while i < n
            invariant
                Self::distinct_keys(self.entries@),
                n == self.entries.len(),
                0 <= i <= n,
                forall|j: int| 0 <= j < i ==> #[trigger] self.entries@[j].0@ != k@,
            decreases n - i,
        {
            let e = &self.entries[i];
            if e.0 == *k {
                proof {
                    Self::lemma_index(self.entries@, i as int);
                }
                return Some(&e.1);
            }
            i = i + 1;
        }
        proof {
            Self::lemma_contains(self.entries@, k@);
        }
        None
    }

    /// True when the key is present.
    pub fn contains_key(&self, k: &String) -> (r: bool)
        ensures
            r == self@.contains_key(k@),
    {
        self.get(k).is_some()
    }

    /// Binds the key to the value, replacing any previous binding.
    pub fn insert(&mut self, k: String, v: V)
        ensures
            final(self)@ == old(self)@.insert(k@, v),
    {
        proof {
            use_type_invariant(&*self);
        }
        let ghost pre = self.entries@;
        let mut entries: Vec<(String, V)> = Vec::new();
        core::mem::swap(&mut entries, &mut self.entries);
        let n = entries.len();
        let mut i: usize = 0;
        let mut hit: Option<usize> = None;
        while i < n
            invariant
                Self::distinct_keys(entries@),
                n == entries.len(),
                0 <= i <= n,
                (match hit {
                    Some(h) => h < i && entries@[h as int].0@ == k@,
                    None => forall|j: int| 0 <= j < i ==> #[trigger] entries@[j].0@ != k@,
                }),
            decreases n - i,
        {
            if hit.is_none() && entries[i].0 == k {
                hit = Some(i);
            }
            i = i + 1;
        }
        match hit {
            Some(h) => {
                proof {
                    Self::lemma_remove_at(entries@, h as int);
                }
                entries.remove(h);
                proof {
                    Self::lemma_contains(pre.remove(h as int), k@);
                    Self::lemma_push(entries@, k, v);
                    assert(Self::map_of(pre).remove(k@).insert(k@, v) =~= Self::map_of(
                        pre,
                    ).insert(k@, v));
                }
                entries.push((k, v));
            },
            None => {
                proof {
                    Self::lemma_contains(entries@, k@);
                    Self::lemma_push(entries@, k, v);
                }
                entries.push((k, v));
            },
        }
        self.entries = entries;
    }

    /// Unbinds the key, handing back the value it was bound to, if any.
    pub fn remove(&mut self, k: &String) -> (r: Option<V>)
        ensures
            final(self)@ == old(self)@.remove(k@),
            (match r {
                Some(v) => old(self)@.contains_key(k@) && v == old(self)@[k@],
                None => !old(self)@.contains_key(k@),
            }),
    {
        proof {
            use_type_invariant(&*self);
        }
        let mut entries: Vec<(String, V)> = Vec::new();
        core::mem::swap(&mut entries, &mut self.entries);
        let n = entries.len();
        let mut i: usize = 0;
        let mut hit: Option<usize> = None;
        while i < n
            invariant
                Self::distinct_keys(entries@),
                n == entries.len(),
                0 <= i <= n,
                (match hit {
                    Some(h) => h < i && entries@[h as int].0@ == k@,
                    None => forall|j: int| 0 <= j < i ==> #[trigger] entries@[j].0@ != k@,
                }),
            decreases n - i,
        {
            if hit.is_none() && entries[i].0 == *k {
                hit = Some(i);
            }
            i = i + 1;
        }
        let r = match hit {
            Some(h) => {
                proof {
                    Self::lemma_index(entries@, h as int);
                    Self::lemma_remove_at(entries@, h as int);
                }
                let (_, v) = entries.remove(h);
                Some(v)
            },
            None => {
                proof {
                    Self::lemma_contains(entries@, k@);
                    assert(Self::map_of(entries@).remove(k@) =~= Self::map_of(entries@));
                }
                None
            },
        };
        self.entries = entries;
        r
    }
}

} // verus!
