//! A small map from `String` keys to `String` values, kept as a vector of
//! pairs with pairwise-distinct keys and abstracted as a `Map<Seq<char>, Seq<char>>`.
use vstd::prelude::*;

verus! {

/// The map denoted by a sequence of key/value pairs; later pairs win.
pub open spec fn pairs_map(s: Seq<(String, String)>) -> Map<Seq<char>, Seq<char>>
    decreases s.len(),
{
    if s.len() == 0 {
        Map::<Seq<char>, Seq<char>>::empty()
    } else {
        pairs_map(s.drop_last()).insert(s.last().0@, s.last().1@)
    }
}

/// No two pairs carry the same key.
pub open spec fn distinct_keys(s: Seq<(String, String)>) -> bool {
    forall|i: int, j: int| 0 <= i < j < s.len() ==> s[i].0@ != s[j].0@
}

pub proof fn lemma_pairs_map_contains(s: Seq<(String, String)>, k: Seq<char>)
    ensures
        pairs_map(s).contains_key(k) <==> exists|i: int| 0 <= i < s.len() && s[i].0@ == k,
    decreases s.len(),
{
    if s.len() > 0 {
        lemma_pairs_map_contains(s.drop_last(), k);
        if s.last().0@ == k {
            assert(s[s.len() - 1].0@ == k);
        } else if pairs_map(s).contains_key(k) {
            let i = choose|i: int| 0 <= i < s.drop_last().len() && s.drop_last()[i].0@ == k;
            assert(s[i].0@ == k);
        } else if exists|i: int| 0 <= i < s.len() && s[i].0@ == k {
            let i = choose|i: int| 0 <= i < s.len() && s[i].0@ == k;
            assert(s.drop_last()[i].0@ == k);
        }
    }
}

pub proof fn lemma_pairs_map_value(s: Seq<(String, String)>, i: int)
    requires
        distinct_keys(s),
        0 <= i < s.len(),
    ensures
        pairs_map(s).contains_key(s[i].0@),
        pairs_map(s)[s[i].0@] == s[i].1@,
    decreases s.len(),
{
    if i < s.len() - 1 {
        assert(distinct_keys(s.drop_last()));
        lemma_pairs_map_value(s.drop_last(), i);
        assert(s[i].0@ != s.last().0@);
    }
}

pub proof fn lemma_pairs_map_remove_absent(s: Seq<(String, String)>, k: Seq<char>)
    requires
        !pairs_map(s).contains_key(k),
    ensures
        pairs_map(s).remove(k) == pairs_map(s),
{
    assert(pairs_map(s).remove(k) =~= pairs_map(s));
}

pub proof fn lemma_pairs_map_remove_at(s: Seq<(String, String)>, i: int)
    requires
        distinct_keys(s),
        0 <= i < s.len(),
    ensures
        distinct_keys(s.remove(i)),
        pairs_map(s.remove(i)) == pairs_map(s).remove(s[i].0@),
    decreases s.len(),
{
    assert(distinct_keys(s.remove(i)));
    if i == s.len() - 1 {
        assert(s.remove(i) =~= s.drop_last());
        lemma_pairs_map_contains(s.drop_last(), s[i].0@);
        assert(!pairs_map(s.drop_last()).contains_key(s[i].0@));
        assert(pairs_map(s.drop_last()).insert(s.last().0@, s.last().1@).remove(s[i].0@)
            =~= pairs_map(s.drop_last()));
    } else {
        assert(distinct_keys(s.drop_last()));
        lemma_pairs_map_remove_at(s.drop_last(), i);
        assert(s.remove(i).drop_last() =~= s.drop_last().remove(i));
        assert(s.remove(i).last() == s.last());
        assert(s.drop_last()[i] == s[i]);
        // removing key i commutes with inserting the (distinct) last key
        assert(s[i].0@ != s.last().0@);
        assert(pairs_map(s.drop_last()).remove(s[i].0@).insert(s.last().0@, s.last().1@)
            =~= pairs_map(s.drop_last()).insert(s.last().0@, s.last().1@).remove(s[i].0@));
        assert(pairs_map(s.remove(i))
            == pairs_map(s.drop_last().remove(i)).insert(s.last().0@, s.last().1@));
    }
}

pub proof fn lemma_pairs_map_push(s: Seq<(String, String)>, k: String, v: String)
    ensures
        pairs_map(s.push((k, v))) == pairs_map(s).insert(k@, v@),
{
    assert(s.push((k, v)).drop_last() =~= s);
    assert(s.push((k, v)).last() == (k, v));
}

/// A key/value bag with `String` keys and `String` values.
pub struct StrMap {
    pub(crate) pairs: Vec<(String, String)>,
}

impl View for StrMap {
    type V = Map<Seq<char>, Seq<char>>;

    open(crate) spec fn view(&self) -> Map<Seq<char>, Seq<char>> {
        pairs_map(self.pairs@)
    }
}

impl StrMap {
    /// The pairs held, in insertion order.
    pub open(crate) spec fn entries(&self) -> Seq<(String, String)> {
        self.pairs@
    }

    /// Keys are pairwise distinct.
    pub open(crate) spec fn wf(&self) -> bool {
        distinct_keys(self.pairs@)
    }

    pub fn new() -> (r: StrMap)
        ensures
            r.wf(),
            r@ == Map::<Seq<char>, Seq<char>>::empty(),
            r.entries() == Seq::<(String, String)>::empty(),
    {
        StrMap { pairs: Vec::new() }
    }

    pub fn num_pairs(&self) -> (r: usize)
        ensures
            r == self.entries().len(),
    {
        self.pairs.len()
    }

    pub fn pair_at(&self, i: usize) -> (r: &(String, String))
        requires
            i < self.entries().len(),
        ensures
            *r == self.entries()[i as int],
    {
        &self.pairs[i]
    }

    /// Index of the pair holding key `k`, if one does.
    fn find(&self, k: &String) -> (r: Option<usize>)
        ensures
            r matches Some(i) ==> i < self.pairs@.len() && self.pairs@[i as int].0@ == k@,
            r is None ==> forall|i: int|
                0 <= i < self.pairs@.len() ==> (#[trigger] self.pairs@[i]).0@ != k@,
    {
        let n = self.pairs.len();
        let mut i: usize = 0;
        while i < n
            invariant
                n == self.pairs@.len(),
                i <= n,
                forall|j: int| 0 <= j < i ==> self.pairs@[j].0@ != k@,
            decreases n - i,
        {
            if self.pairs[i].0 == *k {
                return Some(i);
            }
            i = i + 1;
        }
        None
    }

    pub fn get<'a>(&'a self, k: &str) -> (r: Option<&'a String>)
        requires
            self.wf(),
        ensures
            match r {
                Some(v) => self@.contains_key(k@) && v@ == self@[k@],
                None => !self@.contains_key(k@),
            },
    {
        let ks = String::from_str(k);
        let found = self.find(&ks);
        proof {
            lemma_pairs_map_contains(self.pairs@, k@);
        }
        match found {
            Some(i) => {
                proof {
                    lemma_pairs_map_value(self.pairs@, i as int);
                    assert(self.pairs@[i as int].0@ == k@);
                    assert(self@.contains_key(k@));
                }
                Some(&self.pairs[i].1)
            },
            None => {
                proof {
                    assert(forall|j: int|
                        0 <= j < self.pairs@.len() ==> (#[trigger] self.pairs@[j]).0@ != k@);
                    assert(!self@.contains_key(k@));
                }
                None
            },
        }
    }

    pub fn contains_key(&self, k: &str) -> (r: bool)
        requires
            self.wf(),
        ensures
            r == self@.contains_key(k@),
    {
        let ks = String::from_str(k);
        let found = self.find(&ks);
        proof {
            lemma_pairs_map_contains(self.pairs@, k@);
        }
        match found {
            Some(i) => {
                proof {
                    assert(self.pairs@[i as int].0@ == k@);
                    assert(self@.contains_key(k@));
                }
                true
            },
            None => {
                proof {
                    assert(forall|j: int|
                        0 <= j < self.pairs@.len() ==> (#[trigger] self.pairs@[j]).0@ != k@);
                    assert(!self@.contains_key(k@));
                }
                false
            },
        }
    }

    pub fn insert(&mut self, k: String, v: String)
        requires
            old(self).wf(),
        ensures
            final(self).wf(),
            final(self)@ == old(self)@.insert(k@, v@),
            !old(self)@.contains_key(k@) ==> final(self).entries() == old(self).entries().push(
                (k, v),
            ),
    {
        let found = self.find(&k);
        match found {
            Some(i) => {
                proof {
                    lemma_pairs_map_contains(self.pairs@, k@);
                    assert(old(self)@.contains_key(k@));
                    lemma_pairs_map_remove_at(self.pairs@, i as int);
                }
                self.pairs.remove(i);
                proof {
                    assert(forall|j: int|
                        0 <= j < self.pairs@.len() ==> (#[trigger] self.pairs@[j]).0@ != k@);
                    lemma_pairs_map_push(self.pairs@, k, v);
                }
                let ghost before = self.pairs@;
                self.pairs.push((k, v));
                proof {
                    assert(distinct_keys(self.pairs@)) by {
                        assert(forall|a: int, b: int|
                            0 <= a < b < self.pairs@.len() && b < before.len()
                                ==> self.pairs@[a].0@ != self.pairs@[b].0@);
                        assert(forall|a: int|
                            0 <= a < before.len()
                                ==> (#[trigger] self.pairs@[a]).0@ != k@);
                    }
                    assert(pairs_map(before).insert(k@, v@)
                        =~= old(self)@.insert(k@, v@));
                }
            },
            None => {
                proof {
                    assert(forall|j: int|
                        0 <= j < self.pairs@.len() ==> (#[trigger] self.pairs@[j]).0@ != k@);
                    lemma_pairs_map_push(self.pairs@, k, v);
                }
                let ghost before = self.pairs@;
                self.pairs.push((k, v));
                proof {
                    assert(distinct_keys(self.pairs@)) by {
                        assert(forall|a: int, b: int|
                            0 <= a < b < self.pairs@.len() && b < before.len()
                                ==> self.pairs@[a].0@ != self.pairs@[b].0@);
                        assert(forall|a: int|
                            0 <= a < before.len()
                                ==> (#[trigger] self.pairs@[a]).0@ != k@);
                    }
                }
            },
        }
    }

    pub fn remove(&mut self, k: &str)
        requires
            old(self).wf(),
        ensures
            final(self).wf(),
            final(self)@ == old(self)@.remove(k@),
    {
        let ks = String::from_str(k);
        let found = self.find(&ks);
        match found {
            Some(i) => {
                proof {
                    lemma_pairs_map_remove_at(self.pairs@, i as int);
                }
                self.pairs.remove(i);
            },
            None => {
                proof {
                    assert(forall|j: int|
                        0 <= j < self.pairs@.len() ==> (#[trigger] self.pairs@[j]).0@ != k@);
                    lemma_pairs_map_contains(self.pairs@, k@);
                    lemma_pairs_map_remove_absent(self.pairs@, k@);
                }
            },
        }
    }

    pub fn clear(&mut self)
        ensures
            final(self).wf(),
            final(self)@ == Map::<Seq<char>, Seq<char>>::empty(),
            final(self).entries() == Seq::<(String, String)>::empty(),
    {
        self.pairs.clear();
    }

    /// Adds every pair of `other`, overwriting equal keys.
    pub fn extend_from(&mut self, other: StrMap)
        requires
            old(self).wf(),
            other.wf(),
        ensures
            final(self).wf(),
            final(self)@ == old(self)@.union_prefer_right(other@),
    {
        let n = other.pairs.len();
        let mut i: usize = 0;
        while i < n
            invariant
                n == other.pairs@.len(),
                i <= n,
                self.wf(),
                other.wf(),
                self@ == old(self)@.union_prefer_right(pairs_map(other.pairs@.take(i as int))),
            decreases n - i,
        {
            let p = &other.pairs[i];
            let k = p.0.clone();
            let v = p.1.clone();
            proof {
                assert(other.pairs@.take(i + 1).drop_last() =~= other.pairs@.take(i as int));
                assert(other.pairs@.take(i + 1).last() == other.pairs@[i as int]);
                assert(old(self)@.union_prefer_right(
                    pairs_map(other.pairs@.take(i as int)).insert(k@, v@),
                ) =~= old(self)@.union_prefer_right(
                    pairs_map(other.pairs@.take(i as int)),
                ).insert(k@, v@));
            }
            self.insert(k, v);
            i = i + 1;
        }
        proof {
            assert(other.pairs@.take(n as int) =~= other.pairs@);
        }
    }
}

} // verus!
