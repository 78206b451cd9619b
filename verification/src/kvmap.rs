use vstd::prelude::*;

verus! {

/// One namespace of a component's persistent key-value storage: a store from
/// `u64` identities to values, backed by a vector of pairs whose keys are
/// pairwise distinct.
pub struct KvMap<V> {
    items: Vec<(u64, V)>,
}

impl<V: Copy> KvMap<V> {
    /// The stored pairs, in storage order.
    pub closed spec fn entries(self) -> Seq<(u64, V)> {
        self.items@
    }

    /// Keys are pairwise distinct, so each key names at most one value.
    pub open spec fn wf(self) -> bool {
        forall|i: int, j: int|
            0 <= i < j < self.entries().len() ==> (#[trigger] self.entries()[i]).0 != (
            #[trigger] self.entries()[j]).0
    }

    /// Whether some pair holds `key`.
    pub open spec fn contains_spec(self, key: u64) -> bool {
        exists|i: int| 0 <= i < self.entries().len() && (#[trigger] self.entries()[i]).0 == key
    }

    /// The position of the pair holding `key`; meaningful when `contains_spec`.
    pub open spec fn index_of(self, key: u64) -> int {
        choose|i: int| 0 <= i < self.entries().len() && (#[trigger] self.entries()[i]).0 == key
    }

    /// The value stored under `key`; meaningful when `contains_spec`.
    pub open spec fn value_of(self, key: u64) -> V {
        self.entries()[self.index_of(key)].1
    }

    /// The store read as a mathematical map.
    pub open spec fn as_map(self) -> Map<u64, V> {
        Map::new(|k: u64| self.contains_spec(k), |k: u64| self.value_of(k))
    }

    /// In a well-formed store, a pair holding `key` stands at the one position
    /// `index_of(key)` names.
    pub proof fn lemma_unique_index(self, key: u64, i: int)
        requires
            self.wf(),
            0 <= i < self.entries().len(),
            self.entries()[i].0 == key,
        ensures
            self.contains_spec(key),
            self.index_of(key) == i,
            self.value_of(key) == self.entries()[i].1,
    {
        assert(self.contains_spec(key));
        let w = self.index_of(key);
        if w < i {
            assert(self.entries()[w].0 != self.entries()[i].0);
        } else if w > i {
            assert(self.entries()[i].0 != self.entries()[w].0);
        }
    }

    /// An empty store.
    pub fn new() -> (r: Self)
        ensures
            r.wf(),
            r.entries().len() == 0,
            r.as_map() == Map::<u64, V>::empty(),
    {
        let r = KvMap { items: Vec::new() };
        proof {
            assert(r.as_map() =~= Map::<u64, V>::empty());
        }
        r
    }

    /// The position of the pair holding `key`, if any.
    fn find(&self, key: u64) -> (r: Option<usize>)
        ensures
            match r {
                Some(i) => i < self.entries().len() && self.entries()[i as int].0 == key,
                None => !self.contains_spec(key),
            },
    {
        let n = self.items.len();
        let mut i: usize = 0;
        while i < n
            invariant
                n == self.items.len(),
                i <= n,
                forall|j: int| 0 <= j < i ==> (#[trigger] self.items@[j]).0 != key,
            decreases n - i,
        {
            if self.items[i].0 == key {
                return Some(i);
            }
            i += 1;
        }
        None
    }

    /// Whether a value is stored under `key`.
    pub fn contains(&self, key: u64) -> (r: bool)
        ensures
            r == self.contains_spec(key),
    {
        match self.find(key) {
            Some(i) => {
                proof {
                    assert(self.contains_spec(key));
                }
                true
            },
            None => false,
        }
    }

    /// The value stored under `key`, if any.
    pub fn get(&self, key: u64) -> (r: Option<V>)
        requires
            self.wf(),
        ensures
            r == if self.contains_spec(key) {
                Some(self.value_of(key))
            } else {
                None::<V>
            },
    {
        match self.find(key) {
            Some(i) => {
                proof {
                    self.lemma_unique_index(key, i as int);
                }
                Some(self.items[i].1)
            },
            None => None,
        }
    }

    /// Stores `value` under `key`, replacing any value stored there before.
    pub fn set(&mut self, key: u64, value: V)
        requires
            old(self).wf(),
        ensures
            final(self).wf(),
            final(self).contains_spec(key),
            final(self).as_map() == old(self).as_map().insert(key, value),
            old(self).contains_spec(key) ==> final(self).entries() == old(self).entries().update(
                old(self).index_of(key),
                (key, value),
            ),
            !old(self).contains_spec(key) ==> final(self).entries() == old(self).entries().push(
                (key, value),
            ),
    {
        let ghost pre = *self;
        match self.find(key) {
            Some(i) => {
                proof {
                    pre.lemma_unique_index(key, i as int);
                }
                self.items.set(i, (key, value));
                proof {
                    Self::lemma_map_after_update(pre, *self, key, value, i as int);
                }
            },
            None => {
                self.items.push((key, value));
                proof {
                    Self::lemma_map_after_push(pre, *self, key, value);
                }
            },
        }
    }

    /// Removes the value stored under `key`, if any.
    pub fn remove(&mut self, key: u64)
        requires
            old(self).wf(),
        ensures
            final(self).wf(),
            !final(self).contains_spec(key),
            final(self).as_map() == old(self).as_map().remove(key),
            old(self).contains_spec(key) ==> final(self).entries() == old(self).entries().remove(
                old(self).index_of(key),
            ),
            !old(self).contains_spec(key) ==> final(self).entries() == old(self).entries(),
    {
        let ghost pre = *self;
        match self.find(key) {
            Some(i) => {
                proof {
                    pre.lemma_unique_index(key, i as int);
                }
                self.items.remove(i);
                proof {
                    Self::lemma_map_after_remove(pre, *self, key, i as int);
                }
            },
            None => {
                proof {
                    assert(self.as_map() =~= pre.as_map().remove(key));
                }
            },
        }
    }

    /// After replacing the one pair holding `key`, the store reads as the old
    /// map with `key` rebound.
    proof fn lemma_map_after_update(pre: Self, post: Self, key: u64, value: V, i: int)
        requires
            pre.wf(),
            0 <= i < pre.entries().len(),
            pre.entries()[i].0 == key,
            post.entries() == pre.entries().update(i, (key, value)),
        ensures
            post.wf(),
            post.contains_spec(key),
            post.as_map() == pre.as_map().insert(key, value),
    {
        assert forall|p: int| 0 <= p < post.entries().len() implies (#[trigger] post.entries()[p]).0
            == pre.entries()[p].0 by {}
        assert(post.wf());
        assert(post.entries()[i].0 == key);
        post.lemma_unique_index(key, i);
        assert forall|k: u64| #[trigger]
            post.contains_spec(k) implies pre.contains_spec(k) by {
            let w = post.index_of(k);
            assert(pre.entries()[w].0 == k);
        }
        assert forall|k: u64| #[trigger]
            pre.contains_spec(k) implies post.contains_spec(k) by {
            let w = pre.index_of(k);
            assert(post.entries()[w].0 == k);
        }
        assert forall|k: u64| post.contains_spec(k) && k != key implies #[trigger] post.value_of(k)
            == pre.value_of(k) by {
            let w = post.index_of(k);
            assert(post.entries()[w].0 == k);
            assert(w != i);
            pre.lemma_unique_index(k, w);
        }
        assert(post.as_map() =~= pre.as_map().insert(key, value));
    }

    /// After appending a pair with a fresh key, the store reads as the old map
    /// with `key` newly bound.
    proof fn lemma_map_after_push(pre: Self, post: Self, key: u64, value: V)
        requires
            pre.wf(),
            !pre.contains_spec(key),
            post.entries() == pre.entries().push((key, value)),
        ensures
            post.wf(),
            post.contains_spec(key),
            post.as_map() == pre.as_map().insert(key, value),
    {
        let n = pre.entries().len() as int;
        assert forall|j: int| 0 <= j < n implies (#[trigger] pre.entries()[j]).0 != key by {
            if pre.entries()[j].0 == key {
                assert(pre.contains_spec(key));
            }
        }
        assert(post.wf());
        assert(post.entries()[n].0 == key);
        post.lemma_unique_index(key, n);
        assert forall|k: u64| #[trigger]
            pre.contains_spec(k) implies post.contains_spec(k) && k != key by {
            let w = pre.index_of(k);
            assert(post.entries()[w].0 == k);
        }
        assert forall|k: u64| post.contains_spec(k) && k != key implies #[trigger] pre.contains_spec(
            k,
        ) && post.value_of(k) == pre.value_of(k) by {
            let w = post.index_of(k);
            assert(w < n);
            assert(pre.entries()[w].0 == k);
            pre.lemma_unique_index(k, w);
        }
        assert(post.as_map() =~= pre.as_map().insert(key, value));
    }

    /// After removing the one pair holding `key`, the store reads as the old
    /// map with `key` unbound.
    proof fn lemma_map_after_remove(pre: Self, post: Self, key: u64, i: int)
        requires
            pre.wf(),
            0 <= i < pre.entries().len(),
            pre.entries()[i].0 == key,
            post.entries() == pre.entries().remove(i),
        ensures
            post.wf(),
            !post.contains_spec(key),
            post.as_map() == pre.as_map().remove(key),
    {
        let n = pre.entries().len() as int;
        assert forall|p: int, q: int|
            0 <= p < q < post.entries().len() implies (#[trigger] post.entries()[p]).0 != (
        #[trigger] post.entries()[q]).0 by {
            let p0 = if p < i { p } else { p + 1 };
            let q0 = if q < i { q } else { q + 1 };
            assert(post.entries()[p] == pre.entries()[p0]);
            assert(post.entries()[q] == pre.entries()[q0]);
            assert(pre.entries()[p0].0 != pre.entries()[q0].0);
        }
        assert forall|k: u64| #[trigger]
            post.contains_spec(k) implies k != key && pre.contains_spec(k) && post.value_of(k)
            == pre.value_of(k) by {
            let w = post.index_of(k);
            let w0 = if w < i { w } else { w + 1 };
            assert(post.entries()[w] == pre.entries()[w0]);
            pre.lemma_unique_index(k, w0);
            if k == key {
                assert(w0 != i);
                assert(pre.entries()[w0].0 != pre.entries()[i].0 || pre.entries()[i].0
                    != pre.entries()[w0].0);
            }
        }
        assert forall|k: u64| pre.contains_spec(k) && k != key implies #[trigger] post.contains_spec(
            k,
        ) by {
            let w0 = pre.index_of(k);
            assert(pre.entries()[w0].0 == k);
            assert(w0 != i);
            let w = if w0 < i { w0 } else { w0 - 1 };
            assert(post.entries()[w] == pre.entries()[w0]);
        }
        assert(post.as_map() =~= pre.as_map().remove(key));
    }
}

} // verus!
