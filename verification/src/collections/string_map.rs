use vstd::prelude::*;

verus! {

/// A map keyed by strings, compared by their characters.
///
/// The keys and the values are kept in two vectors of equal length, and no
/// key occurs twice; the value at position `i` belongs to the key at `i`.
pub struct StringMap<V> {
    keys: Vec<String>,
    vals: Vec<V>,
}

impl<V> View for StringMap<V> {
    type V = Map<Seq<char>, V>;

    closed spec fn view(&self) -> Map<Seq<char>, V> {
        Map::new(
            |k: Seq<char>| self.keys_seq().contains(k),
            |k: Seq<char>| self.vals@[self.keys_seq().index_of(k)],
        )
    }
}

impl<V> StringMap<V> {
    /// The keys, in the order in which they are stored.
    pub closed spec fn keys_seq(&self) -> Seq<Seq<char>> {
        self.keys@.map_values(|k: String| k@)
    }

    /// The values, position for position with `keys_seq`.
    pub closed spec fn values_seq(&self) -> Seq<V> {
        self.vals@
    }

    /// Well-formedness: as many values as keys, and no key twice.
    #[verifier::type_invariant]
    closed spec fn wf(&self) -> bool {
        &&& self.keys@.len() == self.vals@.len()
        &&& self.keys_seq().no_duplicates()
    }

    /// The value at position `i` is the one the map gives for the key at `i`.
    proof fn lemma_entry(&self, i: int)
        requires
            self.wf(),
            0 <= i < self.keys@.len(),
        ensures
            self@.contains_key(self.keys_seq()[i]),
            self@[self.keys_seq()[i]] == self.vals@[i],
    {
        let ks = self.keys_seq();
        let k = ks[i];
        assert(ks.contains(k));
        let j = ks.index_of(k);
        assert(0 <= j < ks.len() && ks[j] == k);
        assert(j == i);
    }

    /// How the stored sequences make up the map.
    proof fn lemma_layout(&self)
        requires
            self.wf(),
        ensures
            self.keys_seq().len() == self.values_seq().len(),
            self.keys_seq().no_duplicates(),
            forall|i: int|
                0 <= i < self.keys_seq().len() ==> {
                    &&& #[trigger] self@.contains_key(self.keys_seq()[i])
                    &&& self@[self.keys_seq()[i]] == self.values_seq()[i]
                },
            forall|k: Seq<char>| #[trigger] self@.contains_key(k) <==> self.keys_seq().contains(k),
            self@.dom().finite(),
            self@.len() == self.keys_seq().len(),
    {
        assert forall|i: int| 0 <= i < self.keys_seq().len() implies {
            &&& #[trigger] self@.contains_key(self.keys_seq()[i])
            &&& self@[self.keys_seq()[i]] == self.values_seq()[i]
        } by {
            self.lemma_entry(i);
        }
        assert(self@.dom() =~= self.keys_seq().to_set());
        vstd::seq_lib::seq_to_set_is_finite(self.keys_seq());
        self.keys_seq().unique_seq_to_set();
    }

    /// An empty map.
    pub fn new() -> (m: Self)
        ensures
            m@ == Map::<Seq<char>, V>::empty(),
    {
        let m = StringMap { keys: Vec::new(), vals: Vec::new() };
        assert(m@ =~= Map::<Seq<char>, V>::empty());
        m
    }

    /// The number of entries, and how the stored sequences make up the map:
    /// each key once, with its value at the same position.
    pub fn len(&self) -> (n: usize)
        ensures
            n == self@.len(),
            n == self.keys_seq().len(),
            self.keys_seq().len() == self.values_seq().len(),
            self.keys_seq().no_duplicates(),
            forall|i: int|
                0 <= i < self.keys_seq().len() ==> {
                    &&& #[trigger] self@.contains_key(self.keys_seq()[i])
                    &&& self@[self.keys_seq()[i]] == self.values_seq()[i]
                },
            forall|k: Seq<char>| #[trigger] self@.contains_key(k) <==> self.keys_seq().contains(k),
            self@.dom().finite(),
    {
        proof {
            use_type_invariant(self);
            self.lemma_layout();
        }
        self.keys.len()
    }

    /// The value stored at position `i`.
    pub fn value_at(&self, i: usize) -> (v: &V)
        requires
            i < self.keys_seq().len(),
        ensures
            *v == self.values_seq()[i as int],
    {
        proof {
            use_type_invariant(self);
        }
        &self.vals[i]
    }

    /// The position of `k`, if it is a key.
    fn find(&self, k: &str) -> (r: Option<usize>)
        ensures
            match r {
                Some(i) => i < self.keys@.len() && self.keys_seq()[i as int] == k@,
                None => !self@.contains_key(k@),
            },
    {
        proof {
            use_type_invariant(self);
        }
        let needle = k.to_owned();
        let mut i: usize = 0;
        while i < self.keys.len()
            invariant
                self.wf(),
                needle@ == k@,
                i <= self.keys@.len(),
                forall|j: int| 0 <= j < i ==> self.keys_seq()[j] != k@,
            decreases self.keys@.len() - i,
        {
            if self.keys[i] == needle {
                return Some(i);
            }
            i = i + 1;
        }
        None
    }

    /// Whether `k` is a key.
    pub fn contains_key(&self, k: &str) -> (b: bool)
        ensures
            b == self@.contains_key(k@),
    {
        proof {
            use_type_invariant(self);
        }
        match self.find(k) {
            Some(i) => {
                proof {
                    self.lemma_entry(i as int);
                }
                true
            },
            None => false,
        }
    }

    /// The value stored under `k`, if any.
    pub fn get(&self, k: &str) -> (r: Option<&V>)
        ensures
            match r {
                Some(v) => self@.contains_key(k@) && *v == self@[k@],
                None => !self@.contains_key(k@),
            },
    {
        proof {
            use_type_invariant(self);
        }
        match self.find(k) {
            Some(i) => {
                proof {
                    self.lemma_entry(i as int);
                }
                Some(&self.vals[i])
            },
            None => None,
        }
    }

    /// Stores `v` under `k`, and hands back the value that was there before.
    pub fn insert(&mut self, k: String, v: V) -> (prev: Option<V>)
        ensures
            final(self)@ == old(self)@.insert(k@, v),
            match prev {
                Some(p) => old(self)@.contains_key(k@) && p == old(self)@[k@],
                None => !old(self)@.contains_key(k@),
            },
    {
        let mut taken = StringMap::new();
        core::mem::swap(self, &mut taken);
        let (m, prev) = taken.inserted(k, v);
        *self = m;
        prev
    }

    /// This map with `v` stored under `k`, and the value that was there.
    fn inserted(self, k: String, v: V) -> (r: (Self, Option<V>))
        ensures
            r.0@ == self@.insert(k@, v),
            match r.1 {
                Some(p) => self@.contains_key(k@) && p == self@[k@],
                None => !self@.contains_key(k@),
            },
    {
        proof {
            use_type_invariant(&self);
            self.lemma_layout();
        }
        let ghost pre = self;
        let found = self.find(k.as_str());
        let StringMap { mut keys, mut vals } = self;
        match found {
            Some(i) => {
                proof {
                    pre.lemma_entry(i as int);
                }
                vals.push(v);
                let p = vals.swap_remove(i);
                assert(keys@.map_values(|s: String| s@) == pre.keys_seq());
                let m = StringMap { keys, vals };
                proof {
                    assert(m.vals@ == pre.vals@.update(i as int, v));
                    m.lemma_layout();
                    assert(m@ =~= pre@.insert(k@, v));
                }
                (m, Some(p))
            },
            None => {
                let ghost key = k@;
                keys.push(k);
                vals.push(v);
                assert(keys@.map_values(|s: String| s@) =~= pre.keys_seq().push(key));
                assert(!pre.keys_seq().contains(key));
                let m = StringMap { keys, vals };
                proof {
                    m.lemma_layout();
                    let n = pre.keys@.len();
                    assert(m.keys_seq()[n as int] == key);
                    assert forall|x: Seq<char>| #[trigger] m@.contains_key(x) <==> pre@.insert(key, v).contains_key(x) by {
                        if m@.contains_key(x) {
                            let j = choose|j: int| 0 <= j < m.keys_seq().len() && m.keys_seq()[j] == x;
                            if j < n {
                                assert(pre.keys_seq()[j] == x);
                            }
                        }
                        if pre@.contains_key(x) {
                            let j = choose|j: int| 0 <= j < pre.keys_seq().len() && pre.keys_seq()[j] == x;
                            assert(m.keys_seq()[j] == x);
                        }
                    }
                    assert forall|x: Seq<char>| #[trigger] m@.contains_key(x) implies m@[x] == pre@.insert(key, v)[x] by {
                        let j = choose|j: int| 0 <= j < m.keys_seq().len() && m.keys_seq()[j] == x;
                        if j < n {
                            assert(pre.keys_seq()[j] == x);
                        }
                    }
                    assert(m@ =~= pre@.insert(key, v));
                }
                (m, None)
            },
        }
    }

    /// Removes `k`, and hands back the value that was stored under it.
    pub fn remove(&mut self, k: &str) -> (prev: Option<V>)
        ensures
            final(self)@ == old(self)@.remove(k@),
            match prev {
                Some(p) => old(self)@.contains_key(k@) && p == old(self)@[k@],
                None => !old(self)@.contains_key(k@),
            },
    {
        let mut taken = StringMap::new();
        core::mem::swap(self, &mut taken);
        let (m, prev) = taken.removed(k);
        *self = m;
        prev
    }

    /// This map without `k`, and the value that was stored under it.
    fn removed(self, k: &str) -> (r: (Self, Option<V>))
        ensures
            r.0@ == self@.remove(k@),
            match r.1 {
                Some(p) => self@.contains_key(k@) && p == self@[k@],
                None => !self@.contains_key(k@),
            },
    {
        proof {
            use_type_invariant(&self);
            self.lemma_layout();
        }
        let ghost pre = self;
        match self.find(k) {
            Some(i) => {
                proof {
                    pre.lemma_entry(i as int);
                }
                let StringMap { mut keys, mut vals } = self;
                let _ = keys.swap_remove(i);
                let p = vals.swap_remove(i);
                let ghost n = pre.keys@.len();
                let ghost pk = pre.keys_seq();
                assert(keys@.map_values(|s: String| s@) =~= pk.update(i as int, pk[n - 1]).drop_last());
                let m = StringMap { keys, vals };
                proof {
                    m.lemma_layout();
                    assert forall|x: Seq<char>| #[trigger] m@.contains_key(x) <==> pre@.remove(k@).contains_key(x) by {
                        if m@.contains_key(x) {
                            let j = choose|j: int| 0 <= j < m.keys_seq().len() && m.keys_seq()[j] == x;
                            if j == i {
                                assert(x == pk[n - 1]);
                                assert(pk[n - 1] != pk[i as int]);
                            } else {
                                assert(x == pk[j]);
                            }
                        }
                        if pre@.remove(k@).contains_key(x) {
                            let j = choose|j: int| 0 <= j < pk.len() && pk[j] == x;
                            assert(j != i);
                            if j == n - 1 {
                                assert(m.keys_seq()[i as int] == x);
                            } else {
                                assert(m.keys_seq()[j] == x);
                            }
                        }
                    }
                    assert(m@ =~= pre@.remove(k@));
                }
                (m, Some(p))
            },
            None => {
                proof {
                    assert(pre@ =~= pre@.remove(k@));
                }
                (self, None)
            },
        }
    }
}

} // verus!
