//! Traits: named, versioned, immutable-once-created units of domain data.
//!
//! A trait is never updated in place: `new_version` produces a fresh
//! instance with a bumped version, so outstanding references to the old
//! version stay valid and unaffected.

use vstd::prelude::*;
use crate::ids::fresh_id;
use crate::strmap::StringMap;

verus! {

/// Trait identifier: the 128 bits of a version-4 UUID.
pub type TraitId = u128;

/// The data carried by a trait: a tagged union of plain values.
/// Structured and array payloads carry opaque JSON values through the
/// runtime untouched.
#[derive(Debug)]
pub enum TraitData {
    String(String),
    Number(i64),
    Boolean(bool),
    Object(StringMap<serde_json::Value>),
    Array(Vec<serde_json::Value>),
    Binary(Vec<u8>),
}

/// Equivalence of trait data up to views: the relation a faithful copy
/// preserves.
pub open spec fn td_equiv(a: TraitData, b: TraitData) -> bool {
    match (a, b) {
        (TraitData::String(x), TraitData::String(y)) => x@ == y@,
        (TraitData::Number(x), TraitData::Number(y)) => x == y,
        (TraitData::Boolean(x), TraitData::Boolean(y)) => x == y,
        (TraitData::Object(x), TraitData::Object(y)) => x@ == y@,
        (TraitData::Array(x), TraitData::Array(y)) => x@ == y@,
        (TraitData::Binary(x), TraitData::Binary(y)) => x@ == y@,
        _ => false,
    }
}

/// A clone of a JSON value map carries the very same entries.
proof fn lemma_value_map_duplicate_eq(a: StringMap<serde_json::Value>, b: StringMap<
    serde_json::Value,
>)
    requires
        a@.len() == b@.len(),
        forall|i: int|
            0 <= i < a@.len() ==> (#[trigger] b@[i]).0 == a@[i].0 && cloned::<serde_json::Value>(
                a@[i].1,
                b@[i].1,
            ),
    ensures
        a@ =~= b@,
{
    assert forall|i: int| 0 <= i < a@.len() implies a@[i] == b@[i] by {
        assert(cloned::<serde_json::Value>(a@[i].1, b@[i].1));
    }
}

/// A clone of a string-to-string map carries the very same entries.
pub proof fn lemma_string_map_duplicate_eq(a: StringMap<String>, b: StringMap<String>)
    requires
        a@.len() == b@.len(),
        forall|i: int|
            0 <= i < a@.len() ==> (#[trigger] b@[i]).0 == a@[i].0 && cloned::<String>(
                a@[i].1,
                b@[i].1,
            ),
    ensures
        a@ =~= b@,
{
    assert forall|i: int| 0 <= i < a@.len() implies a@[i] == b@[i] by {
        assert(cloned::<String>(a@[i].1, b@[i].1));
    }
}

impl Clone for TraitData {
    fn clone(&self) -> (r: Self)
        ensures
            td_equiv(*self, r),
    {
        match self {
            TraitData::String(s) => TraitData::String(s.clone()),
            TraitData::Number(n) => TraitData::Number(*n),
            TraitData::Boolean(b) => TraitData::Boolean(*b),
            TraitData::Object(m) => {
                let c = m.duplicate();
                proof {
                    lemma_value_map_duplicate_eq(*m, c);
                }
                TraitData::Object(c)
            },
            TraitData::Array(v) => {
                let c = v.clone();
                proof {
                    assert forall|i: int| 0 <= i < v@.len() implies c@[i] == v@[i] by {
                        assert(cloned::<serde_json::Value>(v@[i], c@[i]));
                    }
                    assert(c@ =~= v@);
                }
                TraitData::Array(c)
            },
            TraitData::Binary(v) => {
                let c = v.clone();
                proof {
                    assert forall|i: int| 0 <= i < v@.len() implies c@[i] == v@[i] by {
                        assert(cloned::<u8>(v@[i], c@[i]));
                    }
                    assert(c@ =~= v@);
                }
                TraitData::Binary(c)
            },
        }
    }
}

impl TraitData {
    pub fn is_string(&self) -> (r: bool)
        ensures
            r == (self is String),
    {
        matches!(self, TraitData::String(_))
    }

    pub fn is_number(&self) -> (r: bool)
        ensures
            r == (self is Number),
    {
        matches!(self, TraitData::Number(_))
    }

    pub fn is_boolean(&self) -> (r: bool)
        ensures
            r == (self is Boolean),
    {
        matches!(self, TraitData::Boolean(_))
    }

    pub fn is_object(&self) -> (r: bool)
        ensures
            r == (self is Object),
    {
        matches!(self, TraitData::Object(_))
    }

    pub fn is_array(&self) -> (r: bool)
        ensures
            r == (self is Array),
    {
        matches!(self, TraitData::Array(_))
    }

    pub fn is_binary(&self) -> (r: bool)
        ensures
            r == (self is Binary),
    {
        matches!(self, TraitData::Binary(_))
    }

    pub fn as_string(&self) -> (r: Option<&String>)
        ensures
            r is Some <==> self is String,
            r matches Some(v) ==> *v == self->String_0,
    {
        match self {
            TraitData::String(s) => Some(s),
            _ => None,
        }
    }

    pub fn as_number(&self) -> (r: Option<i64>)
        ensures
            r is Some <==> self is Number,
            r matches Some(n) ==> n == self->Number_0,
    {
        match self {
            TraitData::Number(n) => Some(*n),
            _ => None,
        }
    }

    pub fn as_boolean(&self) -> (r: Option<bool>)
        ensures
            r is Some <==> self is Boolean,
            r matches Some(b) ==> b == self->Boolean_0,
    {
        match self {
            TraitData::Boolean(b) => Some(*b),
            _ => None,
        }
    }

    pub fn as_object(&self) -> (r: Option<&StringMap<serde_json::Value>>)
        ensures
            r is Some <==> self is Object,
            r matches Some(m) ==> *m == self->Object_0,
    {
        match self {
            TraitData::Object(m) => Some(m),
            _ => None,
        }
    }

    pub fn as_array(&self) -> (r: Option<&Vec<serde_json::Value>>)
        ensures
            r is Some <==> self is Array,
            r matches Some(v) ==> *v == self->Array_0,
    {
        match self {
            TraitData::Array(v) => Some(v),
            _ => None,
        }
    }

    pub fn as_binary(&self) -> (r: Option<&Vec<u8>>)
        ensures
            r is Some <==> self is Binary,
            r matches Some(v) ==> *v == self->Binary_0,
    {
        match self {
            TraitData::Binary(v) => Some(v),
            _ => None,
        }
    }
}

/// A trait: identity, name, version, data and string metadata.
#[derive(Debug)]
pub struct Trait {
    /// Unique identifier for this trait instance.
    pub id: TraitId,
    /// Name of the trait; objects key their traits by it.
    pub name: String,
    /// Version of the trait, starting at 1.
    pub version: u32,
    /// The actual trait data.
    pub data: TraitData,
    /// Metadata about the trait.
    pub metadata: StringMap<String>,
}

/// Equivalence of traits up to views: the relation a faithful copy
/// preserves.
pub open spec fn trait_equiv(a: Trait, b: Trait) -> bool {
    &&& a.id == b.id
    &&& a.name@ == b.name@
    &&& a.version == b.version
    &&& td_equiv(a.data, b.data)
    &&& a.metadata@ == b.metadata@
}

impl Clone for Trait {
    fn clone(&self) -> (r: Self)
        ensures
            trait_equiv(*self, r),
    {
        let metadata = self.metadata.duplicate();
        proof {
            lemma_string_map_duplicate_eq(self.metadata, metadata);
        }
        Trait {
            id: self.id,
            name: self.name.clone(),
            version: self.version,
            data: self.data.clone(),
            metadata,
        }
    }
}

impl Trait {
    /// Well-formedness: a non-empty name and a well-formed metadata map.
    pub open spec fn wf(&self) -> bool {
        self.name@.len() > 0 && self.metadata.wf()
    }

    /// Creates a trait with the given name and data, a fresh identity,
    /// version 1 and no metadata.
    pub fn new(name: String, data: TraitData) -> (r: Self)
        requires
            name@.len() > 0,
        ensures
            r.name == name,
            r.version == 1,
            r.data == data,
            r.metadata@ =~= Seq::<(Seq<char>, String)>::empty(),
            r.wf(),
    {
        Trait { id: fresh_id(), name, version: 1, data, metadata: StringMap::new() }
    }

    /// Creates a trait with the given name, data and metadata, a fresh
    /// identity and version 1.
    pub fn with_metadata(name: String, data: TraitData, metadata: StringMap<String>) -> (r: Self)
        requires
            name@.len() > 0,
            metadata.wf(),
        ensures
            r.name == name,
            r.version == 1,
            r.data == data,
            r.metadata == metadata,
            r.wf(),
    {
        Trait { id: fresh_id(), name, version: 1, data, metadata }
    }

    pub fn name(&self) -> (r: &str)
        ensures
            r@ == self.name@,
    {
        self.name.as_str()
    }

    pub fn data(&self) -> (r: &TraitData)
        ensures
            *r == self.data,
    {
        &self.data
    }

    /// A mutable borrow of the data; identity, name, version and
    /// metadata are untouched.
    pub fn data_mut(&mut self) -> (r: &mut TraitData)
        ensures
            *r == old(self).data,
            *final(self) == (Trait {
                id: old(self).id,
                name: old(self).name,
                version: old(self).version,
                data: *final(r),
                metadata: old(self).metadata,
            }),
    {
        &mut self.data
    }

    pub fn get_metadata(&self, key: &str) -> (r: Option<&String>)
        requires
            self.wf(),
        ensures
            match r {
                Some(v) => self.metadata.spec_get(key@) == Some(*v),
                None => !self.metadata.has_key(key@),
            },
    {
        self.metadata.get(key)
    }

    pub fn set_metadata(&mut self, key: String, value: String)
        requires
            old(self).wf(),
        ensures
            final(self).wf(),
            final(self).id == old(self).id,
            final(self).name == old(self).name,
            final(self).version == old(self).version,
            final(self).data == old(self).data,
            final(self).metadata.spec_get(key@) == Some(value),
            forall|k2: Seq<char>| k2 != key@ ==> final(self).metadata.spec_get(k2) == old(
                self,
            ).metadata.spec_get(k2),
    {
        self.metadata.insert(key, value);
    }

    /// Creates a new version of this trait: the same name, a copy of the
    /// metadata, the given data, a bumped version and a fresh identity.
    /// The original is untouched.
    pub fn new_version(&self, data: TraitData) -> (r: Self)
        requires
            self.wf(),
            self.version < u32::MAX,
        ensures
            r.name@ == self.name@,
            r.version == self.version + 1,
            r.data == data,
            r.metadata@ == self.metadata@,
            r.wf(),
    {
        let metadata = self.metadata.duplicate();
        proof {
            lemma_string_map_duplicate_eq(self.metadata, metadata);
        }
        Trait {
            id: fresh_id(),
            name: self.name.clone(),
            version: self.version + 1,
            data,
            metadata,
        }
    }
}

} // verus!
