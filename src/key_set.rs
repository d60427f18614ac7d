use vstd::prelude::*;

verus! {

/// Stable identity of one logical script asset, independent of its content.
#[derive(Clone, Copy, Debug, PartialEq, Eq, Hash, Structural)]
pub struct AssetKey {
    pub id: u64,
}

/// A finite set of asset keys, held as a vector without repeats.
#[derive(Debug)]
pub struct KeySet {
    items: Vec<AssetKey>,
}

impl View for KeySet {
    type V = Set<AssetKey>;

    closed spec fn view(&self) -> Set<AssetKey> {
        self.items@.to_set()
    }
}

impl KeySet {
    /// The keys in the order in which they were first inserted.
    pub closed spec fn keys(&self) -> Seq<AssetKey> {
        self.items@
    }

    /// No key is held twice.
    pub closed spec fn wf(&self) -> bool {
        self.items@.no_duplicates()
    }

    pub proof fn lemma_view_is_keys(s: &KeySet)
        ensures
            s@ == s.keys().to_set(),
    {
    }

    pub proof fn lemma_wf_no_duplicates(s: &KeySet)
        ensures
            s.wf() == s.keys().no_duplicates(),
    {
    }

    pub fn new() -> (r: KeySet)
        ensures
            r.wf(),
            r@ == Set::<AssetKey>::empty(),
            r.keys() == Seq::<AssetKey>::empty(),
    {
        let r = KeySet { items: Vec::new() };
        assert(r@ =~= Set::<AssetKey>::empty());
        r
    }

    pub fn len(&self) -> (r: usize)
        ensures
            r == self.keys().len(),
    {
        self.items.len()
    }

    /// Position of `k`, if it is held.
    fn find(&self, k: AssetKey) -> (r: Option<usize>)
        ensures
            match r {
                Some(i) => i < self.items@.len() && self.items@[i as int] == k,
                None => !self.items@.contains(k),
            },
    {
        let mut i: usize = 0;
        while i < self.items.len()
            invariant
                i <= self.items@.len(),
                forall|j: int| 0 <= j < i ==> self.items@[j] != k,
            decreases self.items@.len() - i,
        {
            if self.items[i] == k {
                return Some(i);
            }
            i = i + 1;
        }
        None
    }

    pub fn contains(&self, k: AssetKey) -> (r: bool)
        ensures
            r == self@.contains(k),
    {
        self.find(k).is_some()
    }

    /// Adds `k`; returns whether it was absent before.
    pub fn insert(&mut self, k: AssetKey) -> (r: bool)
        requires
            old(self).wf(),
        ensures
            final(self).wf(),
            final(self)@ == old(self)@.insert(k),
            r == !old(self)@.contains(k),
    {
        if self.find(k).is_some() {
            assert(self@ =~= old(self)@.insert(k));
            false
        } else {
            self.items.push(k);
            let ghost after = self.items@;
            assert(after == old(self).items@.push(k));
            assert forall|x: AssetKey| #[trigger] after.contains(x) <==> (old(self).items@.contains(x) || x == k) by {
                if after.contains(x) && x != k {
                    let a = choose|a: int| 0 <= a < after.len() && after[a] == x;
                    assert(old(self).items@[a] == x);
                }
                if old(self).items@.contains(x) {
                    let a = choose|a: int| 0 <= a < old(self).items@.len() && old(self).items@[a] == x;
                    assert(after[a] == x);
                }
                if x == k {
                    assert(after[after.len() - 1] == k);
                }
            }
            assert(self@ =~= old(self)@.insert(k));
            true
        }
    }

    /// Takes `k` out; returns whether it was present before.
    pub fn remove(&mut self, k: AssetKey) -> (r: bool)
        requires
            old(self).wf(),
        ensures
            final(self).wf(),
            final(self)@ == old(self)@.remove(k),
            r == old(self)@.contains(k),
    {
        match self.find(k) {
            None => {
                assert(self@ =~= old(self)@.remove(k));
                false
            },
            Some(i) => {
                let ghost before = self.items@;
                self.items.remove(i);
                let ghost after = self.items@;
                assert(after =~= before.subrange(0, i as int) + before.subrange(i as int + 1, before.len() as int));
                assert forall|a: int, b: int| 0 <= a < after.len() && 0 <= b < after.len() && a != b
                    implies after[a] != after[b] by {
                    let oa = if a < i { a } else { a + 1 };
                    let ob = if b < i { b } else { b + 1 };
                    assert(after[a] == before[oa]);
                    assert(after[b] == before[ob]);
                }
                assert forall|x: AssetKey| #[trigger] after.contains(x) <==> (before.contains(x) && x != k) by {
                    if after.contains(x) {
                        let a = choose|a: int| 0 <= a < after.len() && after[a] == x;
                        let oa = if a < i { a } else { a + 1 };
                        assert(before[oa] == x);
                        assert(oa != i);
                    }
                    if before.contains(x) && x != k {
                        let a = choose|a: int| 0 <= a < before.len() && before[a] == x;
                        assert(a != i);
                        let na = if a < i { a } else { a - 1 };
                        assert(after[na] == x);
                    }
                }
                assert(self@ =~= old(self)@.remove(k));
                true
            },
        }
    }

    /// The keys, each once, in insertion order.
    pub fn to_vec(&self) -> (r: Vec<AssetKey>)
        requires
            self.wf(),
        ensures
            r@ == self.keys(),
            r@.no_duplicates(),
            r@.to_set() == self@,
    {
        self.items.clone()
    }
}

} // verus!
