//! An association map from 128-bit identifiers to values, used for the
//! object registry. Keys are unique; entries keep their insertion order.

use vstd::prelude::*;

verus! {

/// A map from identifiers to values, stored as a vector of key/value
/// pairs with pairwise-distinct keys.
#[derive(Debug)]
pub struct IdMap<V> {
    pairs: Vec<(u128, V)>,
}

impl<V> View for IdMap<V> {
    type V = Seq<(u128, V)>;

    closed spec fn view(&self) -> Seq<(u128, V)> {
        self.pairs@
    }
}

impl<V> IdMap<V> {
    /// Well-formedness: no two entries share a key.
    pub open spec fn wf(&self) -> bool {
        forall|i: int, j: int|
            0 <= i < j < self@.len() ==> (#[trigger] self@[i]).0 != (#[trigger] self@[j]).0
    }

    /// Whether some entry has key `k`.
    pub open spec fn has_key(&self, k: u128) -> bool {
        exists|i: int| 0 <= i < self@.len() && (#[trigger] self@[i]).0 == k
    }

    /// The index of the entry with key `k`, if any.
    pub open spec fn index_of_key(&self, k: u128) -> int {
        choose|i: int| 0 <= i < self@.len() && (#[trigger] self@[i]).0 == k
    }

    /// The value stored under key `k`, if any.
    pub open spec fn spec_get(&self, k: u128) -> Option<V> {
        if self.has_key(k) {
            Some(self@[self.index_of_key(k)].1)
        } else {
            None
        }
    }

    /// In a well-formed map, any entry whose key is `k` is the entry
    /// `spec_get` speaks of.
    pub proof fn lemma_key_unique(&self, k: u128, i: int)
        requires
            self.wf(),
            0 <= i < self@.len(),
            self@[i].0 == k,
        ensures
            self.has_key(k),
            self.index_of_key(k) == i,
            self.spec_get(k) == Some(self@[i].1),
    {
        assert(self.has_key(k));
        let j = self.index_of_key(k);
        if i != j {
            assert(self@[i].0 != self@[j].0);
        }
    }

    pub fn new() -> (r: Self)
        ensures
            r@ =~= Seq::<(u128, V)>::empty(),
            r.wf(),
    {
        IdMap { pairs: Vec::new() }
    }

    pub fn with_capacity(capacity: usize) -> (r: Self)
        ensures
            r@ =~= Seq::<(u128, V)>::empty(),
            r.wf(),
    {
        IdMap { pairs: Vec::with_capacity(capacity) }
    }

    pub fn len(&self) -> (r: usize)
        ensures
            r == self@.len(),
    {
        self.pairs.len()
    }

    /// The position of the entry with key `k`, if present.
    fn find(&self, k: u128) -> (r: Option<usize>)
        ensures
            match r {
                Some(i) => i < self@.len() && self@[i as int].0 == k,
                None => !self.has_key(k),
            },
    {
        let n = self.pairs.len();
        let mut i: usize = 0;
        while i < n
            invariant
                n == self@.len(),
                i <= n,
                forall|j: int| 0 <= j < i ==> (#[trigger] self@[j]).0 != k,
            decreases n - i,
        {
            if self.pairs[i].0 == k {
                return Some(i);
            }
            i += 1;
        }
        None
    }

    pub fn contains_key(&self, k: u128) -> (r: bool)
        ensures
            r == self.has_key(k),
    {
        match self.find(k) {
            Some(i) => {
                proof {
                    assert(self@[i as int].0 == k);
                }
                true
            },
            None => false,
        }
    }

    pub fn get(&self, k: u128) -> (r: Option<&V>)
        requires
            self.wf(),
        ensures
            match r {
                Some(v) => self.has_key(k) && self.spec_get(k) == Some(*v),
                None => !self.has_key(k),
            },
    {
        match self.find(k) {
            Some(i) => {
                proof {
                    self.lemma_key_unique(k, i as int);
                }
                Some(&self.pairs[i].1)
            },
            None => None,
        }
    }

    /// Inserts `v` under key `k`. An existing entry keeps its position
    /// and gets the new value; a new key is appended at the end.
    pub fn insert(&mut self, k: u128, v: V)
        requires
            old(self).wf(),
        ensures
            final(self).wf(),
            old(self).has_key(k) ==> final(self)@ =~= old(self)@.update(
                old(self).index_of_key(k),
                (k, v),
            ),
            !old(self).has_key(k) ==> final(self)@ =~= old(self)@.push((k, v)),
            final(self).has_key(k),
            final(self).spec_get(k) == Some(v),
            forall|k2: u128| k2 != k ==> final(self).spec_get(k2) == old(self).spec_get(k2),
            forall|k2: u128| k2 != k ==> final(self).has_key(k2) == old(self).has_key(k2),
    {
        let found = self.find(k);
        match found {
            Some(i) => {
                proof {
                    self.lemma_key_unique(k, i as int);
                }
                let ghost pre = *self;
                self.pairs[i] = (k, v);
                proof {
                    assert(self@ =~= pre@.update(i as int, (k, v)));
                    lemma_id_update_keeps_wf_and_lookups(pre, *self, i as int);
                    self.lemma_key_unique(k, i as int);
                }
            },
            None => {
                let ghost pre = *self;
                self.pairs.push((k, v));
                proof {
                    assert(self@ =~= pre@.push((k, v)));
                    let n = pre@.len() as int;
                    assert forall|a: int, b: int|
                        0 <= a < b < self@.len() implies (#[trigger] self@[a]).0 != (
                    #[trigger] self@[b]).0 by {
                        if b < n {
                            assert(pre@[a].0 != pre@[b].0);
                        } else {
                            assert(self@[a].0 == pre@[a].0);
                        }
                    }
                    self.lemma_key_unique(k, n);
                    assert forall|k2: u128| k2 != k implies self.has_key(k2) == pre.has_key(
                        k2,
                    ) by {
                        if pre.has_key(k2) {
                            let w = pre.index_of_key(k2);
                            assert(self@[w].0 == k2);
                        }
                        if self.has_key(k2) {
                            let w = self.index_of_key(k2);
                            assert(w < n);
                            assert(pre@[w].0 == k2);
                        }
                    }
                    assert forall|k2: u128| k2 != k implies self.spec_get(k2) == pre.spec_get(k2) by {
                        if pre.has_key(k2) {
                            let w = pre.index_of_key(k2);
                            assert(self@[w].0 == k2);
                            pre.lemma_key_unique(k2, w);
                            self.lemma_key_unique(k2, w);
                        }
                    }
                }
            },
        }
    }

    pub fn clear(&mut self)
        ensures
            final(self)@ =~= Seq::<(u128, V)>::empty(),
            final(self).wf(),
    {
        self.pairs.clear();
    }

    pub fn reserve(&mut self, additional: usize)
        ensures
            final(self)@ == old(self)@,
    {
        self.pairs.reserve(additional);
    }

    pub fn key_at(&self, i: usize) -> (r: u128)
        requires
            i < self@.len(),
        ensures
            r == self@[i as int].0,
    {
        self.pairs[i].0
    }

    pub fn value_at(&self, i: usize) -> (r: &V)
        requires
            i < self@.len(),
        ensures
            *r == self@[i as int].1,
    {
        &self.pairs[i].1
    }
}

/// After overwriting position `i` with a pair that keeps the old key,
/// well-formedness and all lookups survive.
proof fn lemma_id_update_keeps_wf_and_lookups<V>(pre: IdMap<V>, post: IdMap<V>, i: int)
    requires
        pre.wf(),
        0 <= i < pre@.len(),
        post@ =~= pre@.update(i, (pre@[i].0, post@[i].1)),
    ensures
        post.wf(),
        forall|k2: u128| k2 != pre@[i].0 ==> post.spec_get(k2) == pre.spec_get(k2),
        forall|k2: u128| k2 != pre@[i].0 ==> post.has_key(k2) == pre.has_key(k2),
{
    assert forall|k2: u128| k2 != pre@[i].0 implies post.has_key(k2) == pre.has_key(k2) by {
        if pre.has_key(k2) {
            let w = pre.index_of_key(k2);
            assert(post@[w].0 == k2);
        }
        if post.has_key(k2) {
            let w = post.index_of_key(k2);
            assert(pre@[w].0 == k2);
        }
    }
    assert forall|k2: u128| k2 != pre@[i].0 implies post.spec_get(k2) == pre.spec_get(k2) by {
        if pre.has_key(k2) {
            let w = pre.index_of_key(k2);
            assert(post@[w].0 == k2);
            pre.lemma_key_unique(k2, w);
            post.lemma_key_unique(k2, w);
        }
    }
}

} // verus!
