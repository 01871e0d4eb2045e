//! An association map from `String` keys to values.
//!
//! Keys are compared by their character sequences and are unique; entries
//! keep their insertion order, which the orchestration layer relies on for
//! deterministic iteration.

use vstd::prelude::*;

verus! {

/// A map from strings to values, stored as a vector of key/value pairs
/// with pairwise-distinct keys. The view is the sequence of pairs, each
/// key abstracted to its character sequence.
#[derive(Debug)]
pub struct StringMap<V> {
    pairs: Vec<(String, V)>,
}

impl<V> View for StringMap<V> {
    type V = Seq<(Seq<char>, V)>;

    closed spec fn view(&self) -> Seq<(Seq<char>, V)> {
        self.pairs@.map(|i: int, p: (String, V)| (p.0@, p.1))
    }
}

impl<V> StringMap<V> {
    /// Well-formedness: no two entries share a key.
    pub open spec fn wf(&self) -> bool {
        forall|i: int, j: int|
            0 <= i < j < self@.len() ==> (#[trigger] self@[i]).0 != (#[trigger] self@[j]).0
    }

    /// Whether some entry has key `k`.
    pub open spec fn has_key(&self, k: Seq<char>) -> bool {
        exists|i: int| 0 <= i < self@.len() && (#[trigger] self@[i]).0 == k
    }

    /// The index of the entry with key `k`, if any.
    pub open spec fn index_of_key(&self, k: Seq<char>) -> int {
        choose|i: int| 0 <= i < self@.len() && (#[trigger] self@[i]).0 == k
    }

    /// The value stored under key `k`, if any.
    pub open spec fn spec_get(&self, k: Seq<char>) -> Option<V> {
        if self.has_key(k) {
            Some(self@[self.index_of_key(k)].1)
        } else {
            None
        }
    }

    /// In a well-formed map, any entry whose key is `k` is the entry
    /// `spec_get` speaks of.
    pub proof fn lemma_key_unique(&self, k: Seq<char>, i: int)
        requires
            self.wf(),
            0 <= i < self@.len(),
            self@[i].0 == k,
        ensures
            self.has_key(k),
            self.index_of_key(k) == i,
            self.spec_get(k) == Some(self@[i].1),
    {
        assert(self.has_key(k));
        let j = self.index_of_key(k);
        if i != j {
            assert(self@[i].0 != self@[j].0);
        }
    }

    pub fn new() -> (r: Self)
        ensures
            r@ =~= Seq::<(Seq<char>, V)>::empty(),
            r.wf(),
    {
        StringMap { pairs: Vec::new() }
    }

    pub fn with_capacity(capacity: usize) -> (r: Self)
        ensures
            r@ =~= Seq::<(Seq<char>, V)>::empty(),
            r.wf(),
    {
        StringMap { pairs: Vec::with_capacity(capacity) }
    }

    pub fn len(&self) -> (r: usize)
        ensures
            r == self@.len(),
    {
        self.pairs.len()
    }

    pub fn is_empty(&self) -> (r: bool)
        ensures
            r == (self@.len() == 0),
    {
        self.pairs.len() == 0
    }

    /// The position of the entry with key `k`, if present.
    fn find(&self, k: &str) -> (r: Option<usize>)
        ensures
            match r {
                Some(i) => i < self@.len() && self@[i as int].0 == k@,
                None => !self.has_key(k@),
            },
    {
        let key: String = k.to_owned();
        let n = self.pairs.len();
        let mut i: usize = 0;
        while i < n
            invariant
                n == self@.len(),
                i <= n,
                key@ == k@,
                forall|j: int| 0 <= j < i ==> (#[trigger] self@[j]).0 != k@,
            decreases n - i,
        {
            if self.pairs[i].0 == key {
                return Some(i);
            }
            i += 1;
        }
        None
    }

    /// The position of the entry with key `k`, if present.
    pub fn index_of(&self, k: &str) -> (r: Option<usize>)
        ensures
            match r {
                Some(i) => i < self@.len() && self@[i as int].0 == k@,
                None => !self.has_key(k@),
            },
    {
        self.find(k)
    }

    pub fn contains_key(&self, k: &str) -> (r: bool)
        ensures
            r == self.has_key(k@),
    {
        match self.find(k) {
            Some(i) => {
                proof {
                    assert(self@[i as int].0 == k@);
                }
                true
            },
            None => false,
        }
    }

    pub fn get(&self, k: &str) -> (r: Option<&V>)
        requires
            self.wf(),
        ensures
            match r {
                Some(v) => self.has_key(k@) && self.spec_get(k@) == Some(*v),
                None => !self.has_key(k@),
            },
    {
        match self.find(k) {
            Some(i) => {
                proof {
                    self.lemma_key_unique(k@, i as int);
                }
                Some(&self.pairs[i].1)
            },
            None => None,
        }
    }

    /// Inserts `v` under key `k`. An existing entry keeps its position and
    /// gets the new value; a new key is appended at the end.
    pub fn insert(&mut self, k: String, v: V)
        requires
            old(self).wf(),
        ensures
            final(self).wf(),
            old(self).has_key(k@) ==> final(self)@ =~= old(self)@.update(
                old(self).index_of_key(k@),
                (k@, v),
            ),
            !old(self).has_key(k@) ==> final(self)@ =~= old(self)@.push((k@, v)),
            final(self).has_key(k@),
            final(self).spec_get(k@) == Some(v),
            forall|k2: Seq<char>| k2 != k@ ==> final(self).spec_get(k2) == old(self).spec_get(k2),
            forall|k2: Seq<char>| k2 != k@ ==> final(self).has_key(k2) == old(self).has_key(k2),
    {
        let ghost gk = k@;
        let ghost gv = v;
        let found = self.find(k.as_str());
        match found {
            Some(i) => {
                proof {
                    self.lemma_key_unique(gk, i as int);
                }
                let ghost pre = *self;
                self.pairs[i] = (k, v);
                proof {
                    assert(self@ =~= pre@.update(i as int, (gk, gv)));
                    lemma_update_keeps_wf_and_lookups(pre, *self, i as int);
                    self.lemma_key_unique(gk, i as int);
                }
            },
            None => {
                let ghost pre = *self;
                self.pairs.push((k, v));
                proof {
                    assert(self@ =~= pre@.push((gk, gv)));
                    lemma_push_keeps_wf_and_lookups(pre, *self);
                }
            },
        }
    }

    /// Removes the entry with key `k`, returning its value; later entries
    /// shift down by one.
    pub fn remove(&mut self, k: &str) -> (r: Option<V>)
        requires
            old(self).wf(),
        ensures
            final(self).wf(),
            match r {
                Some(v) => {
                    &&& old(self).spec_get(k@) == Some(v)
                    &&& final(self)@ =~= old(self)@.remove(old(self).index_of_key(k@))
                    &&& !final(self).has_key(k@)
                },
                None => {
                    &&& !old(self).has_key(k@)
                    &&& final(self)@ =~= old(self)@
                },
            },
            forall|k2: Seq<char>| k2 != k@ ==> final(self).spec_get(k2) == old(self).spec_get(k2),
            forall|k2: Seq<char>| k2 != k@ ==> final(self).has_key(k2) == old(self).has_key(k2),
    {
        match self.find(k) {
            Some(i) => {
                proof {
                    self.lemma_key_unique(k@, i as int);
                }
                let ghost pre = *self;
                let pair = self.pairs.remove(i);
                proof {
                    assert(self@ =~= pre@.remove(i as int));
                    lemma_remove_keeps_wf_and_lookups(pre, *self, i as int);
                }
                Some(pair.1)
            },
            None => None,
        }
    }

    pub fn clear(&mut self)
        ensures
            final(self)@ =~= Seq::<(Seq<char>, V)>::empty(),
            final(self).wf(),
    {
        self.pairs.clear();
    }

    pub fn reserve(&mut self, additional: usize)
        ensures
            final(self)@ == old(self)@,
    {
        self.pairs.reserve(additional);
    }

    pub fn key_at(&self, i: usize) -> (r: &String)
        requires
            i < self@.len(),
        ensures
            r@ == self@[i as int].0,
    {
        &self.pairs[i].0
    }

    pub fn value_at(&self, i: usize) -> (r: &V)
        requires
            i < self@.len(),
        ensures
            *r == self@[i as int].1,
    {
        &self.pairs[i].1
    }

    /// A mutable borrow of the value at position `i`. The key at `i` is
    /// unchanged; callers re-establish `wf` with
    /// [`lemma_update_keeps_wf_and_lookups`] once the borrow expires.
    pub fn value_at_mut(&mut self, i: usize) -> (r: &mut V)
        requires
            i < old(self)@.len(),
        ensures
            *r == old(self)@[i as int].1,
            final(self)@ =~= old(self)@.update(
                i as int,
                (old(self)@[i as int].0, *final(r)),
            ),
    {
        &mut self.pairs[i].1
    }

    /// All keys, in entry order.
    pub fn keys(&self) -> (r: Vec<String>)
        ensures
            r@.len() == self@.len(),
            forall|i: int| 0 <= i < r@.len() ==> (#[trigger] r@[i])@ == self@[i].0,
    {
        let mut out: Vec<String> = Vec::with_capacity(self.pairs.len());
        let n = self.pairs.len();
        let mut i: usize = 0;
        while i < n
            invariant
                n == self@.len(),
                i <= n,
                out@.len() == i,
                forall|j: int| 0 <= j < i ==> (#[trigger] out@[j])@ == self@[j].0,
            decreases n - i,
        {
            out.push(self.pairs[i].0.clone());
            i += 1;
        }
        out
    }
}

impl<V: Clone> StringMap<V> {
    /// An entry-by-entry copy: keys are equal, each value is a clone of
    /// the original.
    pub fn duplicate(&self) -> (r: Self)
        ensures
            r@.len() == self@.len(),
            forall|i: int|
                0 <= i < self@.len() ==> (#[trigger] r@[i]).0 == self@[i].0 && cloned::<V>(
                    self@[i].1,
                    r@[i].1,
                ),
    {
        let mut pairs: Vec<(String, V)> = Vec::with_capacity(self.pairs.len());
        let n = self.pairs.len();
        let mut i: usize = 0;
        while i < n
            invariant
                n == self@.len(),
                n == self.pairs@.len(),
                i <= n,
                pairs@.len() == i,
                forall|j: int|
                    0 <= j < i ==> (#[trigger] pairs@[j]).0@ == self@[j].0 && cloned::<V>(
                        self@[j].1,
                        pairs@[j].1,
                    ),
            decreases n - i,
        {
            let key = self.pairs[i].0.clone();
            let val = self.pairs[i].1.clone();
            pairs.push((key, val));
            i += 1;
        }
        StringMap { pairs }
    }
}

/// After overwriting position `i` with a pair that keeps the old key,
/// well-formedness and all lookups survive.
pub proof fn lemma_update_keeps_wf_and_lookups<V>(pre: StringMap<V>, post: StringMap<V>, i: int)
    requires
        pre.wf(),
        0 <= i < pre@.len(),
        post@ =~= pre@.update(i, (pre@[i].0, post@[i].1)),
    ensures
        post.wf(),
        forall|k2: Seq<char>| k2 != pre@[i].0 ==> post.spec_get(k2) == pre.spec_get(k2),
        forall|k2: Seq<char>| k2 != pre@[i].0 ==> post.has_key(k2) == pre.has_key(k2),
{
    assert forall|k2: Seq<char>| k2 != pre@[i].0 implies post.has_key(k2) == pre.has_key(k2) by {
        if pre.has_key(k2) {
            let w = pre.index_of_key(k2);
            assert(post@[w].0 == k2);
        }
        if post.has_key(k2) {
            let w = post.index_of_key(k2);
            assert(pre@[w].0 == k2);
        }
    }
    assert forall|k2: Seq<char>| k2 != pre@[i].0 implies post.spec_get(k2) == pre.spec_get(k2) by {
        if pre.has_key(k2) {
            let w = pre.index_of_key(k2);
            assert(post@[w].0 == k2);
            pre.lemma_key_unique(k2, w);
            post.lemma_key_unique(k2, w);
        }
    }
}

/// After appending a pair with a fresh key, well-formedness and all
/// lookups for other keys survive.
proof fn lemma_push_keeps_wf_and_lookups<V>(pre: StringMap<V>, post: StringMap<V>)
    requires
        pre.wf(),
        post@.len() == pre@.len() + 1,
        post@ =~= pre@.push(post@[pre@.len() as int]),
        !pre.has_key(post@[pre@.len() as int].0),
    ensures
        post.wf(),
        post.has_key(post@[pre@.len() as int].0),
        post.spec_get(post@[pre@.len() as int].0) == Some(post@[pre@.len() as int].1),
        forall|k2: Seq<char>| k2 != post@[pre@.len() as int].0 ==> post.spec_get(k2)
            == pre.spec_get(k2),
        forall|k2: Seq<char>| k2 != post@[pre@.len() as int].0 ==> post.has_key(k2) == pre.has_key(
            k2,
        ),
{
    let n = pre@.len() as int;
    let newkey = post@[n].0;
    assert forall|i: int, j: int| 0 <= i < j < post@.len() implies (#[trigger] post@[i]).0 != (
    #[trigger] post@[j]).0 by {
        if j < n {
            assert(pre@[i].0 != pre@[j].0);
        } else {
            assert(post@[i].0 == pre@[i].0);
        }
    }
    post.lemma_key_unique(newkey, n);
    assert forall|k2: Seq<char>| k2 != newkey implies post.has_key(k2) == pre.has_key(k2) by {
        if pre.has_key(k2) {
            let w = pre.index_of_key(k2);
            assert(post@[w].0 == k2);
        }
        if post.has_key(k2) {
            let w = post.index_of_key(k2);
            assert(w < n);
            assert(pre@[w].0 == k2);
        }
    }
    assert forall|k2: Seq<char>| k2 != newkey implies post.spec_get(k2) == pre.spec_get(k2) by {
        if pre.has_key(k2) {
            let w = pre.index_of_key(k2);
            assert(post@[w].0 == k2);
            pre.lemma_key_unique(k2, w);
            post.lemma_key_unique(k2, w);
        }
    }
}

/// After removing position `i`, well-formedness and all lookups for the
/// other keys survive.
proof fn lemma_remove_keeps_wf_and_lookups<V>(pre: StringMap<V>, post: StringMap<V>, i: int)
    requires
        pre.wf(),
        0 <= i < pre@.len(),
        post@ =~= pre@.remove(i),
    ensures
        post.wf(),
        !post.has_key(pre@[i].0),
        forall|k2: Seq<char>| k2 != pre@[i].0 ==> post.spec_get(k2) == pre.spec_get(k2),
        forall|k2: Seq<char>| k2 != pre@[i].0 ==> post.has_key(k2) == pre.has_key(k2),
{
    let gone = pre@[i].0;
    assert forall|a: int, b: int| 0 <= a < b < post@.len() implies (#[trigger] post@[a]).0 != (
    #[trigger] post@[b]).0 by {
        let a0 = if a < i { a } else { a + 1 };
        let b0 = if b < i { b } else { b + 1 };
        assert(pre@[a0].0 != pre@[b0].0);
    }
    assert forall|w: int| 0 <= w < post@.len() implies (#[trigger] post@[w]).0 != gone by {
        let w0 = if w < i { w } else { w + 1 };
        assert(post@[w] == pre@[w0]);
        if w0 != i {
            assert(pre@[w0].0 != pre@[i].0);
        }
    }
    assert forall|k2: Seq<char>| k2 != gone implies post.has_key(k2) == pre.has_key(k2) by {
        if pre.has_key(k2) {
            let w = pre.index_of_key(k2);
            if w < i {
                assert(post@[w].0 == k2);
            } else {
                assert(w != i);
                assert(post@[w - 1].0 == k2);
            }
        }
        if post.has_key(k2) {
            let w = post.index_of_key(k2);
            let w0 = if w < i { w } else { w + 1 };
            assert(pre@[w0].0 == k2);
        }
    }
    assert forall|k2: Seq<char>| k2 != gone implies post.spec_get(k2) == pre.spec_get(k2) by {
        if pre.has_key(k2) {
            let w = pre.index_of_key(k2);
            pre.lemma_key_unique(k2, w);
            if w < i {
                assert(post@[w].0 == k2);
                post.lemma_key_unique(k2, w);
            } else {
                assert(w != i);
                assert(post@[w - 1].0 == k2);
                post.lemma_key_unique(k2, w - 1);
            }
        }
    }
}

} // verus!
