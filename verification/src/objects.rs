//! Objects: identity containers that compose named traits.
//!
//! An object holds at most one trait per name. `updated_at` never
//! decreases and is refreshed on trait or metadata mutation, except on
//! the explicitly-marked bulk/internal paths, which skip the refresh for
//! batch construction.

use vstd::prelude::*;
use crate::clock::now_millis;
use crate::error::OatsError;
use crate::ids::fresh_id;
use crate::strmap::StringMap;
use crate::text::{concat_str, join_strings, spec_join, views_of};
use crate::traits::{lemma_string_map_duplicate_eq, trait_equiv, Trait, TraitData};

verus! {

/// Object identifier: the 128 bits of a version-4 UUID.
pub type ObjectId = u128;

/// An object: identity, name, type, traits keyed by name, metadata and
/// timestamps in milliseconds since the Unix epoch.
#[derive(Debug)]
pub struct Object {
    /// Unique identifier for this object.
    pub id: ObjectId,
    /// Name of the object.
    pub name: String,
    /// Type of the object.
    pub object_type: String,
    /// Traits associated with this object, keyed by trait name.
    pub traits: StringMap<Trait>,
    /// Metadata about the object.
    pub metadata: StringMap<String>,
    /// Creation timestamp.
    pub created_at: i64,
    /// Last update timestamp.
    pub updated_at: i64,
}

/// Entrywise equivalence of two trait maps.
pub open spec fn traits_equiv(a: Seq<(Seq<char>, Trait)>, b: Seq<(Seq<char>, Trait)>) -> bool {
    a.len() == b.len() && forall|i: int|
        0 <= i < a.len() ==> (#[trigger] b[i]).0 == a[i].0 && trait_equiv(a[i].1, b[i].1)
}

/// Equivalence of objects up to views: the relation a faithful copy
/// preserves. Identity, in particular, is shared by an object and its
/// copies.
pub open spec fn obj_equiv(a: Object, b: Object) -> bool {
    &&& a.id == b.id
    &&& a.name@ == b.name@
    &&& a.object_type@ == b.object_type@
    &&& traits_equiv(a.traits@, b.traits@)
    &&& a.metadata@ == b.metadata@
    &&& a.created_at == b.created_at
    &&& a.updated_at == b.updated_at
}

/// A value accepted by `Trait::clone` is equivalent to the original.
pub proof fn lemma_cloned_trait_equiv(a: Trait, b: Trait)
    requires
        cloned(a, b),
    ensures
        trait_equiv(a, b),
{
}

/// A value accepted by `Object::clone` is equivalent to the original.
pub proof fn lemma_cloned_obj_equiv(a: Object, b: Object)
    requires
        cloned(a, b),
    ensures
        obj_equiv(a, b),
{
    if a == b {
        assert(traits_equiv(a.traits@, a.traits@));
    }
}

/// Equivalent objects are equally well-formed.
pub proof fn lemma_obj_equiv_wf(a: Object, b: Object)
    requires
        obj_equiv(a, b),
        a.wf(),
    ensures
        b.wf(),
{
}

impl Clone for Object {
    fn clone(&self) -> (r: Self)
        ensures
            obj_equiv(*self, r),
    {
        let traits = self.traits.duplicate();
        let metadata = self.metadata.duplicate();
        proof {
            lemma_string_map_duplicate_eq(self.metadata, metadata);
            assert forall|i: int| 0 <= i < self.traits@.len() implies (#[trigger] traits@[i]).0
                == self.traits@[i].0 && trait_equiv(self.traits@[i].1, traits@[i].1) by {
                lemma_cloned_trait_equiv(self.traits@[i].1, traits@[i].1);
            }
        }
        Object {
            id: self.id,
            name: self.name.clone(),
            object_type: self.object_type.clone(),
            traits,
            metadata,
            created_at: self.created_at,
            updated_at: self.updated_at,
        }
    }
}

impl PartialEq for Object {
    /// Objects are compared by identity alone.
    fn eq(&self, other: &Object) -> (r: bool) {
        self.id == other.id
    }
}

impl vstd::std_specs::cmp::PartialEqSpecImpl for Object {
    open spec fn obeys_eq_spec() -> bool {
        true
    }

    open spec fn eq_spec(&self, other: &Object) -> bool {
        self.id == other.id
    }
}

impl Eq for Object {}

/// The last trait in `ts` whose name is `k`, if any: the one that
/// survives when `ts` is inserted in order into a trait map.
pub open spec fn last_with_name(ts: Seq<Trait>, k: Seq<char>) -> Option<Trait>
    decreases ts.len(),
{
    if ts.len() == 0 {
        None
    } else if ts.last().name@ == k {
        Some(ts.last())
    } else {
        last_with_name(ts.drop_last(), k)
    }
}

/// The names in `req`, in order, that have no trait in `o`.
pub open spec fn missing_names(req: Seq<Seq<char>>, o: Object) -> Seq<Seq<char>>
    decreases req.len(),
{
    if req.len() == 0 {
        Seq::empty()
    } else if o.traits.has_key(req.last()) {
        missing_names(req.drop_last(), o)
    } else {
        missing_names(req.drop_last(), o).push(req.last())
    }
}

/// No name is missing exactly when every name has a trait.
pub proof fn lemma_missing_names_empty(req: Seq<Seq<char>>, o: Object)
    ensures
        missing_names(req, o).len() == 0 <==> (forall|i: int|
            0 <= i < req.len() ==> o.traits.has_key(#[trigger] req[i])),
    decreases req.len(),
{
    if req.len() > 0 {
        lemma_missing_names_empty(req.drop_last(), o);
        assert forall|i: int|
            0 <= i < req.drop_last().len() implies req.drop_last()[i] == req[i] by {}
    }
}

impl Object {
    /// Well-formedness: both maps are well-formed, every trait is
    /// well-formed, and each entry is keyed by its trait's name.
    pub open spec fn wf(&self) -> bool {
        &&& self.traits.wf()
        &&& self.metadata.wf()
        &&& forall|i: int|
            0 <= i < self.traits@.len() ==> (#[trigger] self.traits@[i]).1.wf()
                && self.traits@[i].1.name@ == self.traits@[i].0
    }

    /// Creates an object with the given name and type, a fresh identity,
    /// no traits, no metadata, and both timestamps set to now.
    pub fn new(name: String, object_type: String) -> (r: Self)
        ensures
            r.name == name,
            r.object_type == object_type,
            r.traits@ =~= Seq::<(Seq<char>, Trait)>::empty(),
            r.metadata@ =~= Seq::<(Seq<char>, String)>::empty(),
            r.created_at == r.updated_at,
            r.wf(),
    {
        let now = now_millis();
        Object {
            id: fresh_id(),
            name,
            object_type,
            traits: StringMap::new(),
            metadata: StringMap::new(),
            created_at: now,
            updated_at: now,
        }
    }

    /// Creates an object carrying the given traits, inserted in order
    /// with replace-on-same-name semantics; the bulk path leaves the
    /// timestamps at creation time.
    pub fn with_traits(name: String, object_type: String, traits: Vec<Trait>) -> (r: Self)
        requires
            forall|i: int| 0 <= i < traits@.len() ==> (#[trigger] traits@[i]).wf(),
        ensures
            r.name == name,
            r.object_type == object_type,
            forall|k: Seq<char>| r.traits.spec_get(k) == last_with_name(traits@, k),
            r.metadata@ =~= Seq::<(Seq<char>, String)>::empty(),
            r.created_at == r.updated_at,
            r.wf(),
    {
        let mut obj = Object::new(name, object_type);
        proof {
            assert forall|k: Seq<char>| obj.traits.spec_get(k) == last_with_name(
                Seq::<Trait>::empty(),
                k,
            ) by {
                if obj.traits.has_key(k) {
                    let w = obj.traits.index_of_key(k);
                }
            }
        }
        obj.add_traits_bulk(traits);
        obj
    }

    /// Creates an object with pre-allocated capacity for traits and
    /// metadata.
    pub fn with_capacity(
        name: String,
        object_type: String,
        trait_capacity: usize,
        metadata_capacity: usize,
    ) -> (r: Self)
        ensures
            r.name == name,
            r.object_type == object_type,
            r.traits@ =~= Seq::<(Seq<char>, Trait)>::empty(),
            r.metadata@ =~= Seq::<(Seq<char>, String)>::empty(),
            r.created_at == r.updated_at,
            r.wf(),
    {
        let now = now_millis();
        Object {
            id: fresh_id(),
            name,
            object_type,
            traits: StringMap::with_capacity(trait_capacity),
            metadata: StringMap::with_capacity(metadata_capacity),
            created_at: now,
            updated_at: now,
        }
    }

    pub fn name(&self) -> (r: &str)
        ensures
            r@ == self.name@,
    {
        self.name.as_str()
    }

    pub fn object_type(&self) -> (r: &str)
        ensures
            r@ == self.object_type@,
    {
        self.object_type.as_str()
    }

    pub fn id(&self) -> (r: ObjectId)
        ensures
            r == self.id,
    {
        self.id
    }

    /// Refreshes `updated_at` to the present, never moving it backwards.
    fn touch(&mut self)
        ensures
            final(self).updated_at >= old(self).updated_at,
            final(self).id == old(self).id,
            final(self).name == old(self).name,
            final(self).object_type == old(self).object_type,
            final(self).traits == old(self).traits,
            final(self).metadata == old(self).metadata,
            final(self).created_at == old(self).created_at,
    {
        let t = now_millis();
        if t > self.updated_at {
            self.updated_at = t;
        }
    }

    /// Inserts or replaces a trait by its name and refreshes
    /// `updated_at`.
    pub fn add_trait(&mut self, trait_obj: Trait)
        requires
            old(self).wf(),
            trait_obj.wf(),
        ensures
            final(self).wf(),
            final(self).traits.spec_get(trait_obj.name@) == Some(trait_obj),
            forall|k: Seq<char>| k != trait_obj.name@ ==> final(self).traits.spec_get(k) == old(
                self,
            ).traits.spec_get(k),
            final(self).traits.has_key(trait_obj.name@),
            forall|k: Seq<char>| k != trait_obj.name@ ==> final(self).traits.has_key(k) == old(
                self,
            ).traits.has_key(k),
            final(self).updated_at >= old(self).updated_at,
            final(self).id == old(self).id,
            final(self).name == old(self).name,
            final(self).object_type == old(self).object_type,
            final(self).metadata == old(self).metadata,
            final(self).created_at == old(self).created_at,
    {
        self.add_trait_internal(trait_obj);
        self.touch();
    }

    /// Inserts multiple traits in order with replace-on-same-name
    /// semantics; refreshes `updated_at` when at least one was given.
    pub fn add_traits(&mut self, traits: Vec<Trait>)
        requires
            old(self).wf(),
            forall|i: int| 0 <= i < traits@.len() ==> (#[trigger] traits@[i]).wf(),
        ensures
            final(self).wf(),
            forall|k: Seq<char>|
                final(self).traits.spec_get(k) == match last_with_name(traits@, k) {
                    Some(t) => Some(t),
                    None => old(self).traits.spec_get(k),
                },
            final(self).updated_at >= old(self).updated_at,
            traits@.len() == 0 ==> final(self).updated_at == old(self).updated_at,
            final(self).id == old(self).id,
            final(self).name == old(self).name,
            final(self).object_type == old(self).object_type,
            final(self).metadata == old(self).metadata,
            final(self).created_at == old(self).created_at,
    {
        let any = traits.len() > 0;
        self.add_traits_bulk(traits);
        if any {
            self.touch();
        }
    }

    /// Inserts multiple traits without refreshing `updated_at`: an
    /// explicit opt-out of the freshness invariant, for batch loads.
    pub fn add_traits_bulk(&mut self, traits: Vec<Trait>)
        requires
            old(self).wf(),
            forall|i: int| 0 <= i < traits@.len() ==> (#[trigger] traits@[i]).wf(),
        ensures
            final(self).wf(),
            forall|k: Seq<char>|
                final(self).traits.spec_get(k) == match last_with_name(traits@, k) {
                    Some(t) => Some(t),
                    None => old(self).traits.spec_get(k),
                },
            final(self).updated_at == old(self).updated_at,
            final(self).id == old(self).id,
            final(self).name == old(self).name,
            final(self).object_type == old(self).object_type,
            final(self).metadata == old(self).metadata,
            final(self).created_at == old(self).created_at,
    {
        let n = traits.len();
        let ghost tv = traits@;
        let mut traits = traits;
        let mut i: usize = 0;
        // Drain from the front so insertion order matches the input.
        while i < n
            invariant
                n == tv.len(),
                traits@ =~= tv.skip(i as int),
                i <= n,
                self.wf(),
                forall|j: int| 0 <= j < n ==> (#[trigger] tv[j]).wf(),
                forall|k: Seq<char>|
                    self.traits.spec_get(k) == match last_with_name(tv.take(i as int), k) {
                        Some(t) => Some(t),
                        None => old(self).traits.spec_get(k),
                    },
                self.updated_at == old(self).updated_at,
                self.id == old(self).id,
                self.name == old(self).name,
                self.object_type == old(self).object_type,
                self.metadata == old(self).metadata,
                self.created_at == old(self).created_at,
            decreases n - i,
        {
            let t = traits.remove(0);
            proof {
                assert(t == tv.skip(i as int)[0]);
                assert(t == tv[i as int]);
                assert(traits@ =~= tv.skip(i as int + 1));
            }
            self.add_trait_internal(t);
            proof {
                let gi = i as int;
                assert(tv.take(gi + 1).drop_last() =~= tv.take(gi));
                assert(tv.take(gi + 1).last() == tv[gi]);
                assert forall|k: Seq<char>| self.traits.spec_get(k) == (match last_with_name(
                    tv.take(gi + 1),
                    k,
                ) {
                    Some(tt) => Some(tt),
                    None => old(self).traits.spec_get(k),
                }) by {
                    if k == t.name@ {
                        assert(last_with_name(tv.take(gi + 1), k) == Some(tv[gi]));
                        assert(self.traits.spec_get(k) == Some(t));
                    } else {
                        assert(last_with_name(tv.take(gi + 1), k) == last_with_name(
                            tv.take(gi),
                            k,
                        ));
                    }
                }
            }
            i += 1;
        }
        proof {
            assert(tv.take(n as int) =~= tv);
        }
    }

    /// Inserts or replaces a trait by its name without refreshing
    /// `updated_at` (internal/bulk path).
    pub fn add_trait_internal(&mut self, trait_obj: Trait)
        requires
            old(self).wf(),
            trait_obj.wf(),
        ensures
            final(self).wf(),
            final(self).traits.spec_get(trait_obj.name@) == Some(trait_obj),
            final(self).traits.has_key(trait_obj.name@),
            forall|k: Seq<char>| k != trait_obj.name@ ==> final(self).traits.spec_get(k) == old(
                self,
            ).traits.spec_get(k),
            forall|k: Seq<char>| k != trait_obj.name@ ==> final(self).traits.has_key(k) == old(
                self,
            ).traits.has_key(k),
            final(self).updated_at == old(self).updated_at,
            final(self).id == old(self).id,
            final(self).name == old(self).name,
            final(self).object_type == old(self).object_type,
            final(self).metadata == old(self).metadata,
            final(self).created_at == old(self).created_at,
    {
        let ghost pre_map = self.traits;
        let key = trait_obj.name.clone();
        let ghost gt = trait_obj;
        self.traits.insert(key, trait_obj);
        proof {
            if pre_map.has_key(gt.name@) {
                let w = pre_map.index_of_key(gt.name@);
                assert(self.traits@ =~= pre_map@.update(w, (gt.name@, gt)));
            } else {
                assert(self.traits@ =~= pre_map@.push((gt.name@, gt)));
            }
        }
    }

    /// Removes the trait with the given name, if present; refreshes
    /// `updated_at` only when something was removed.
    pub fn remove_trait(&mut self, trait_name: &str) -> (r: Option<Trait>)
        requires
            old(self).wf(),
        ensures
            final(self).wf(),
            r == old(self).traits.spec_get(trait_name@),
            !final(self).traits.has_key(trait_name@),
            forall|k: Seq<char>| k != trait_name@ ==> final(self).traits.spec_get(k) == old(
                self,
            ).traits.spec_get(k),
            forall|k: Seq<char>| k != trait_name@ ==> final(self).traits.has_key(k) == old(
                self,
            ).traits.has_key(k),
            r is Some ==> final(self).updated_at >= old(self).updated_at,
            r is None ==> final(self).updated_at == old(self).updated_at,
            final(self).id == old(self).id,
            final(self).name == old(self).name,
            final(self).object_type == old(self).object_type,
            final(self).metadata == old(self).metadata,
            final(self).created_at == old(self).created_at,
    {
        let result = self.traits.remove(trait_name);
        if result.is_some() {
            self.touch();
        }
        result
    }

    pub fn get_trait(&self, trait_name: &str) -> (r: Option<&Trait>)
        requires
            self.wf(),
        ensures
            match r {
                Some(t) => self.traits.spec_get(trait_name@) == Some(*t),
                None => !self.traits.has_key(trait_name@),
            },
    {
        self.traits.get(trait_name)
    }

    /// A mutable borrow of the trait with the given name. The entry's
    /// key does not follow a renaming of the borrowed trait, so a caller
    /// that keeps the object well-formed leaves the name alone.
    pub fn get_trait_mut(&mut self, trait_name: &str) -> (r: Option<&mut Trait>)
        requires
            old(self).wf(),
        ensures
            match r {
                Some(t) => {
                    &&& old(self).traits.spec_get(trait_name@) == Some(*t)
                    &&& final(self).traits@ == old(self).traits@.update(
                        old(self).traits.index_of_key(trait_name@),
                        (trait_name@, *final(t)),
                    )
                    &&& final(self).metadata == old(self).metadata
                    &&& final(self).id == old(self).id
                    &&& final(self).name == old(self).name
                    &&& final(self).object_type == old(self).object_type
                    &&& final(self).created_at == old(self).created_at
                    &&& final(self).updated_at == old(self).updated_at
                },
                None => !old(self).traits.has_key(trait_name@) && *final(self) == *old(self),
            },
    {
        match self.traits.index_of(trait_name) {
            Some(i) => {
                proof {
                    self.traits.lemma_key_unique(trait_name@, i as int);
                }
                Some(self.traits.value_at_mut(i))
            },
            None => None,
        }
    }

    /// A mutable borrow of the data of the trait with the given name;
    /// the trait's identity, name, version and metadata are untouched.
    pub fn get_trait_data_mut(&mut self, trait_name: &str) -> (r: Option<&mut TraitData>)
        requires
            old(self).wf(),
        ensures
            match r {
                Some(d) => {
                    &&& old(self).traits.spec_get(trait_name@) matches Some(t) && t.data == *d
                        && final(self).traits@ == old(self).traits@.update(
                        old(self).traits.index_of_key(trait_name@),
                        (
                            trait_name@,
                            Trait {
                                id: t.id,
                                name: t.name,
                                version: t.version,
                                data: *final(d),
                                metadata: t.metadata,
                            },
                        ),
                    )
                    &&& final(self).metadata == old(self).metadata
                    &&& final(self).id == old(self).id
                    &&& final(self).name == old(self).name
                    &&& final(self).object_type == old(self).object_type
                    &&& final(self).created_at == old(self).created_at
                    &&& final(self).updated_at == old(self).updated_at
                },
                None => !old(self).traits.has_key(trait_name@) && *final(self) == *old(self),
            },
    {
        match self.traits.index_of(trait_name) {
            Some(i) => {
                proof {
                    self.traits.lemma_key_unique(trait_name@, i as int);
                }
                Some(self.traits.value_at_mut(i).data_mut())
            },
            None => None,
        }
    }

    /// Reads a trait's data without copying the trait record.
    pub fn get_trait_data(&self, trait_name: &str) -> (r: Option<&TraitData>)
        requires
            self.wf(),
        ensures
            match r {
                Some(d) => self.traits.spec_get(trait_name@) matches Some(t) && t.data == *d,
                None => !self.traits.has_key(trait_name@),
            },
    {
        match self.traits.get(trait_name) {
            Some(t) => Some(&t.data),
            None => None,
        }
    }

    pub fn traits(&self) -> (r: &StringMap<Trait>)
        ensures
            *r == self.traits,
    {
        &self.traits
    }

    pub fn has_trait(&self, trait_name: &str) -> (r: bool)
        ensures
            r == self.traits.has_key(trait_name@),
    {
        self.traits.contains_key(trait_name)
    }

    /// Whether every one of the given names has a trait (logical AND;
    /// vacuously true for an empty list).
    pub fn has_traits(&self, trait_names: &[&str]) -> (r: bool)
        ensures
            r == (forall|i: int|
                0 <= i < trait_names@.len() ==> self.traits.has_key(
                    (#[trigger] trait_names@[i])@,
                )),
    {
        let n = trait_names.len();
        let mut i: usize = 0;
        while i < n
            invariant
                n == trait_names@.len(),
                i <= n,
                forall|j: int| 0 <= j < i ==> self.traits.has_key((#[trigger] trait_names@[j])@),
            decreases n - i,
        {
            if !self.has_trait(trait_names[i]) {
                return false;
            }
            i += 1;
        }
        true
    }

    pub fn has_any_traits(&self) -> (r: bool)
        ensures
            r == (self.traits@.len() > 0),
    {
        !self.traits.is_empty()
    }

    pub fn get_metadata(&self, key: &str) -> (r: Option<&String>)
        requires
            self.wf(),
        ensures
            match r {
                Some(v) => self.metadata.spec_get(key@) == Some(*v),
                None => !self.metadata.has_key(key@),
            },
    {
        self.metadata.get(key)
    }

    /// Sets a metadata entry and refreshes `updated_at`.
    pub fn set_metadata(&mut self, key: String, value: String)
        requires
            old(self).wf(),
        ensures
            final(self).wf(),
            final(self).metadata.spec_get(key@) == Some(value),
            forall|k2: Seq<char>| k2 != key@ ==> final(self).metadata.spec_get(k2) == old(
                self,
            ).metadata.spec_get(k2),
            final(self).updated_at >= old(self).updated_at,
            final(self).id == old(self).id,
            final(self).name == old(self).name,
            final(self).object_type == old(self).object_type,
            final(self).traits == old(self).traits,
            final(self).created_at == old(self).created_at,
    {
        self.metadata.insert(key, value);
        self.touch();
    }

    pub fn metadata(&self) -> (r: &StringMap<String>)
        ensures
            *r == self.metadata,
    {
        &self.metadata
    }

    pub fn created_at(&self) -> (r: i64)
        ensures
            r == self.created_at,
    {
        self.created_at
    }

    pub fn updated_at(&self) -> (r: i64)
        ensures
            r == self.updated_at,
    {
        self.updated_at
    }

    /// The trait names, in entry order.
    pub fn trait_names(&self) -> (r: Vec<String>)
        ensures
            r@.len() == self.traits@.len(),
            forall|i: int| 0 <= i < r@.len() ==> (#[trigger] r@[i])@ == self.traits@[i].0,
    {
        self.traits.keys()
    }

    /// The trait identifiers, in entry order.
    pub fn trait_ids(&self) -> (r: Vec<u128>)
        ensures
            r@.len() == self.traits@.len(),
            forall|i: int| 0 <= i < r@.len() ==> (#[trigger] r@[i]) == self.traits@[i].1.id,
    {
        let n = self.traits.len();
        let mut out: Vec<u128> = Vec::with_capacity(n);
        let mut i: usize = 0;
        while i < n
            invariant
                n == self.traits@.len(),
                i <= n,
                out@.len() == i,
                forall|j: int| 0 <= j < i ==> (#[trigger] out@[j]) == self.traits@[j].1.id,
            decreases n - i,
        {
            out.push(self.traits.value_at(i).id);
            i += 1;
        }
        out
    }

    pub fn trait_count(&self) -> (r: usize)
        ensures
            r == self.traits@.len(),
    {
        self.traits.len()
    }

    pub fn metadata_count(&self) -> (r: usize)
        ensures
            r == self.metadata@.len(),
    {
        self.metadata.len()
    }

    pub fn reserve_traits(&mut self, additional: usize)
        ensures
            final(self).traits@ == old(self).traits@,
            final(self).metadata == old(self).metadata,
            final(self).id == old(self).id,
            final(self).name == old(self).name,
            final(self).object_type == old(self).object_type,
            final(self).created_at == old(self).created_at,
            final(self).updated_at == old(self).updated_at,
    {
        self.traits.reserve(additional);
    }

    pub fn reserve_metadata(&mut self, additional: usize)
        ensures
            final(self).metadata@ == old(self).metadata@,
            final(self).traits == old(self).traits,
            final(self).id == old(self).id,
            final(self).name == old(self).name,
            final(self).object_type == old(self).object_type,
            final(self).created_at == old(self).created_at,
            final(self).updated_at == old(self).updated_at,
    {
        self.metadata.reserve(additional);
    }

    /// Checks that every required trait is present; on failure returns a
    /// single trait-not-found error enumerating all the missing names,
    /// in the order given.
    pub fn validate_required_traits(&self, required_traits: &[&str]) -> (r: Result<
        (),
        OatsError,
    >)
        ensures
            r is Ok <==> (forall|i: int|
                0 <= i < required_traits@.len() ==> self.traits.has_key(
                    (#[trigger] required_traits@[i])@,
                )),
            r matches Err(e) ==> e matches OatsError::TraitNotFound { trait_name }
                && trait_name@ == missing_message(views_of_strs(required_traits@), *self),
    {
        let n = required_traits.len();
        let mut missing: Vec<String> = Vec::new();
        let mut i: usize = 0;
        while i < n
            invariant
                n == required_traits@.len(),
                i <= n,
                views_of(missing@) =~= missing_names(views_of_strs(required_traits@).take(i as int), *self),
            decreases n - i,
        {
            if !self.has_trait(required_traits[i]) {
                missing.push(required_traits[i].to_owned());
            }
            i += 1;
            proof {
                let rv = views_of_strs(required_traits@);
                assert(rv.take(i as int).drop_last() =~= rv.take(i - 1));
                assert(views_of(missing@) =~= missing_names(rv.take(i as int), *self));
            }
        }
        proof {
            let rv = views_of_strs(required_traits@);
            assert(rv.take(n as int) =~= rv);
            lemma_missing_names_empty(rv, *self);
            assert(missing@.len() == missing_names(rv, *self).len());
            assert forall|i: int|
                0 <= i < required_traits@.len() implies (#[trigger] required_traits@[i])@
                == rv[i] by {}
        }
        if missing.len() > 0 {
            let joined = join_strings(&missing, ", ");
            let message = concat_str("Missing required traits: ", &joined);
            Err(OatsError::TraitNotFound { trait_name: message })
        } else {
            Ok(())
        }
    }

    /// Whether the object has the required fields: a non-empty name and
    /// a non-empty type.
    pub fn is_valid(&self) -> (r: bool)
        ensures
            r == (self.name@.len() > 0 && self.object_type@.len() > 0),
    {
        !self.name.as_str().is_empty() && !self.object_type.as_str().is_empty()
    }
}

/// The views of a sequence of string slices.
pub open spec fn views_of_strs(parts: Seq<&str>) -> Seq<Seq<char>> {
    parts.map(|i: int, s: &str| s@)
}

/// The text of the error raised for missing required traits.
pub open spec fn missing_message(req: Seq<Seq<char>>, o: Object) -> Seq<char> {
    "Missing required traits: "@ + spec_join(missing_names(req, o), ", "@)
}

} // verus!
