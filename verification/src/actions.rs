//! Actions: stateless units of logic.
//!
//! An action reads an [`ActionContext`] — role-named objects, named
//! parameters and metadata — and produces an [`ActionResult`]: a success
//! flag, proposed trait updates, messages and arbitrary result data. A
//! failure result is a complete, valid value; failures are values, not
//! aborts.

use vstd::prelude::*;
use crate::error::OatsError;
use crate::objects::Object;
use crate::strmap::StringMap;
use crate::traits::Trait;

verus! {

/// Action identifier: the 128 bits of a version-4 UUID.
pub type ActionId = u128;

/// Context passed to an action: owned copies of the relevant objects,
/// arbitrary JSON parameters and string metadata. Built fresh per
/// invocation; never persisted.
#[derive(Debug)]
pub struct ActionContext {
    /// Objects relevant to this action, keyed by role name.
    pub objects: StringMap<Object>,
    /// Additional parameters for the action.
    pub parameters: StringMap<serde_json::Value>,
    /// Metadata about the action execution.
    pub metadata: StringMap<String>,
}

impl ActionContext {
    /// Well-formedness: the three maps are well-formed and every carried
    /// object is well-formed.
    pub open spec fn wf(&self) -> bool {
        &&& self.objects.wf()
        &&& self.parameters.wf()
        &&& self.metadata.wf()
        &&& forall|i: int| 0 <= i < self.objects@.len() ==> (#[trigger] self.objects@[i]).1.wf()
    }

    pub fn new() -> (r: Self)
        ensures
            r.objects@ =~= Seq::<(Seq<char>, Object)>::empty(),
            r.parameters@ =~= Seq::<(Seq<char>, serde_json::Value)>::empty(),
            r.metadata@ =~= Seq::<(Seq<char>, String)>::empty(),
            r.wf(),
    {
        ActionContext {
            objects: StringMap::new(),
            parameters: StringMap::new(),
            metadata: StringMap::new(),
        }
    }

    pub fn with_capacity(expected_objects: usize, expected_parameters: usize) -> (r: Self)
        ensures
            r.objects@ =~= Seq::<(Seq<char>, Object)>::empty(),
            r.parameters@ =~= Seq::<(Seq<char>, serde_json::Value)>::empty(),
            r.metadata@ =~= Seq::<(Seq<char>, String)>::empty(),
            r.wf(),
    {
        ActionContext {
            objects: StringMap::with_capacity(expected_objects),
            parameters: StringMap::with_capacity(expected_parameters),
            metadata: StringMap::new(),
        }
    }

    /// Adds an owned object under a role name.
    pub fn add_object(&mut self, name: String, object: Object)
        requires
            old(self).wf(),
            object.wf(),
        ensures
            final(self).wf(),
            final(self).objects.spec_get(name@) == Some(object),
            final(self).objects.has_key(name@),
            forall|k: Seq<char>| k != name@ ==> final(self).objects.spec_get(k) == old(
                self,
            ).objects.spec_get(k),
            forall|k: Seq<char>| k != name@ ==> final(self).objects.has_key(k) == old(
                self,
            ).objects.has_key(k),
            final(self).parameters == old(self).parameters,
            final(self).metadata == old(self).metadata,
    {
        let ghost pre = self.objects;
        self.objects.insert(name, object);
        proof {
            if pre.has_key(name@) {
                let w = pre.index_of_key(name@);
                assert(self.objects@ =~= pre@.update(w, (name@, object)));
            } else {
                assert(self.objects@ =~= pre@.push((name@, object)));
            }
        }
    }

    pub fn get_object(&self, name: &str) -> (r: Option<&Object>)
        requires
            self.wf(),
        ensures
            match r {
                Some(o) => self.objects.spec_get(name@) == Some(*o),
                None => !self.objects.has_key(name@),
            },
    {
        self.objects.get(name)
    }

    /// The requested objects that are present, keyed by their role
    /// names.
    pub fn get_objects<'a>(&'a self, names: &[&str]) -> (r: StringMap<&'a Object>)
        requires
            self.wf(),
        ensures
            r.wf(),
            forall|i: int|
                0 <= i < names@.len() ==> r.has_key((#[trigger] names@[i])@) == self.objects.has_key(
                    names@[i]@,
                ),
            forall|k: Seq<char>| #[trigger]
                r.has_key(k) ==> (exists|i: int| 0 <= i < names@.len() && (#[trigger] names@[i])@
                    == k),
            forall|k: Seq<char>|
                #[trigger] r.spec_get(k) matches Some(p) ==> self.objects.spec_get(k) == Some(*p),
    {
        let mut out: StringMap<&'a Object> = StringMap::new();
        let n = names.len();
        let mut i: usize = 0;
        while i < n
            invariant
                n == names@.len(),
                i <= n,
                self.wf(),
                out.wf(),
                forall|j: int|
                    0 <= j < i ==> out.has_key((#[trigger] names@[j])@) == self.objects.has_key(
                        names@[j]@,
                    ),
                forall|k: Seq<char>| #[trigger]
                    out.has_key(k) ==> (exists|j: int| 0 <= j < n && (#[trigger] names@[j])@ == k),
                forall|k: Seq<char>|
                    #[trigger] out.spec_get(k) matches Some(p) ==> self.objects.spec_get(k) == Some(
                        *p,
                    ),
            decreases n - i,
        {
            let name = names[i];
            proof {
                assert((names@[i as int])@ == name@);
            }
            match self.objects.get(name) {
                Some(obj) => {
                    out.insert(name.to_owned(), obj);
                    proof {
                        assert(out.has_key(name@));
                    }
                },
                None => {
                    proof {
                        if out.has_key(name@) {
                            assert(out.spec_get(name@) is Some);
                            let p = out.spec_get(name@)->Some_0;
                            assert(out.spec_get(name@) matches Some(q) && q == p);
                            assert(self.objects.spec_get(name@) == Some(*p));
                            assert(self.objects.has_key(name@));
                        }
                        assert(!out.has_key(name@));
                    }
                },
            }
            i += 1;
        }
        out
    }

    /// Adds a parameter.
    pub fn add_parameter(&mut self, name: String, value: serde_json::Value)
        requires
            old(self).wf(),
        ensures
            final(self).wf(),
            final(self).parameters.spec_get(name@) == Some(value),
            forall|k: Seq<char>| k != name@ ==> final(self).parameters.spec_get(k) == old(
                self,
            ).parameters.spec_get(k),
            final(self).objects == old(self).objects,
            final(self).metadata == old(self).metadata,
    {
        self.parameters.insert(name, value);
    }

    pub fn get_parameter(&self, name: &str) -> (r: Option<&serde_json::Value>)
        requires
            self.wf(),
        ensures
            match r {
                Some(v) => self.parameters.spec_get(name@) == Some(*v),
                None => !self.parameters.has_key(name@),
            },
    {
        self.parameters.get(name)
    }

    /// Adds a metadata entry.
    pub fn add_metadata(&mut self, key: String, value: String)
        requires
            old(self).wf(),
        ensures
            final(self).wf(),
            final(self).metadata.spec_get(key@) == Some(value),
            forall|k2: Seq<char>| k2 != key@ ==> final(self).metadata.spec_get(k2) == old(
                self,
            ).metadata.spec_get(k2),
            final(self).objects == old(self).objects,
            final(self).parameters == old(self).parameters,
    {
        self.metadata.insert(key, value);
    }

    pub fn get_metadata(&self, key: &str) -> (r: Option<&String>)
        requires
            self.wf(),
        ensures
            match r {
                Some(v) => self.metadata.spec_get(key@) == Some(*v),
                None => !self.metadata.has_key(key@),
            },
    {
        self.metadata.get(key)
    }

    pub fn object_count(&self) -> (r: usize)
        ensures
            r == self.objects@.len(),
    {
        self.objects.len()
    }

    pub fn parameter_count(&self) -> (r: usize)
        ensures
            r == self.parameters@.len(),
    {
        self.parameters.len()
    }

    pub fn metadata_count(&self) -> (r: usize)
        ensures
            r == self.metadata@.len(),
    {
        self.metadata.len()
    }

    pub fn reserve_objects(&mut self, additional: usize)
        ensures
            final(self).objects@ == old(self).objects@,
            final(self).parameters == old(self).parameters,
            final(self).metadata == old(self).metadata,
    {
        self.objects.reserve(additional);
    }

    pub fn reserve_parameters(&mut self, additional: usize)
        ensures
            final(self).parameters@ == old(self).parameters@,
            final(self).objects == old(self).objects,
            final(self).metadata == old(self).metadata,
    {
        self.parameters.reserve(additional);
    }

    pub fn clear_objects(&mut self)
        ensures
            final(self).objects@ =~= Seq::<(Seq<char>, Object)>::empty(),
            final(self).parameters == old(self).parameters,
            final(self).metadata == old(self).metadata,
    {
        self.objects.clear();
    }

    pub fn clear_parameters(&mut self)
        ensures
            final(self).parameters@ =~= Seq::<(Seq<char>, serde_json::Value)>::empty(),
            final(self).objects == old(self).objects,
            final(self).metadata == old(self).metadata,
    {
        self.parameters.clear();
    }

    pub fn clear_metadata(&mut self)
        ensures
            final(self).metadata@ =~= Seq::<(Seq<char>, String)>::empty(),
            final(self).objects == old(self).objects,
            final(self).parameters == old(self).parameters,
    {
        self.metadata.clear();
    }
}

impl Default for ActionContext {
    fn default() -> (r: Self)
        ensures
            r.objects@ =~= Seq::<(Seq<char>, Object)>::empty(),
            r.parameters@ =~= Seq::<(Seq<char>, serde_json::Value)>::empty(),
            r.metadata@ =~= Seq::<(Seq<char>, String)>::empty(),
            r.wf(),
    {
        ActionContext::new()
    }
}

/// Result of an action execution: a success flag, proposed trait
/// updates, messages and arbitrary result data. The runtime never
/// applies `trait_updates` back to any registry itself; they are carried
/// to the caller.
#[derive(Debug)]
pub struct ActionResult {
    /// Whether the action was successful.
    pub success: bool,
    /// New traits proposed by the action.
    pub trait_updates: Vec<Trait>,
    /// Messages or logs from the action.
    pub messages: Vec<String>,
    /// Additional data returned by the action.
    pub data: StringMap<serde_json::Value>,
}

impl ActionResult {
    /// Creates a successful result with nothing attached.
    pub fn success() -> (r: Self)
        ensures
            r.success,
            r.trait_updates@ =~= Seq::<Trait>::empty(),
            r.messages@ =~= Seq::<String>::empty(),
            r.data@ =~= Seq::<(Seq<char>, serde_json::Value)>::empty(),
            r.data.wf(),
    {
        ActionResult {
            success: true,
            trait_updates: Vec::new(),
            messages: Vec::new(),
            data: StringMap::new(),
        }
    }

    /// Creates a failed result carrying one explanatory message.
    pub fn failure(message: String) -> (r: Self)
        ensures
            !r.success,
            r.trait_updates@ =~= Seq::<Trait>::empty(),
            r.messages@ =~= seq![message],
            r.data@ =~= Seq::<(Seq<char>, serde_json::Value)>::empty(),
            r.data.wf(),
    {
        let mut messages: Vec<String> = Vec::new();
        messages.push(message);
        ActionResult {
            success: false,
            trait_updates: Vec::new(),
            messages,
            data: StringMap::new(),
        }
    }

    /// Creates a successful result with pre-allocated capacity.
    pub fn success_with_capacity(
        trait_capacity: usize,
        message_capacity: usize,
        data_capacity: usize,
    ) -> (r: Self)
        ensures
            r.success,
            r.trait_updates@ =~= Seq::<Trait>::empty(),
            r.messages@ =~= Seq::<String>::empty(),
            r.data@ =~= Seq::<(Seq<char>, serde_json::Value)>::empty(),
            r.data.wf(),
    {
        ActionResult {
            success: true,
            trait_updates: Vec::with_capacity(trait_capacity),
            messages: Vec::with_capacity(message_capacity),
            data: StringMap::with_capacity(data_capacity),
        }
    }

    /// Appends one proposed trait update.
    pub fn add_trait_update(&mut self, trait_obj: Trait)
        ensures
            final(self).trait_updates@ == old(self).trait_updates@.push(trait_obj),
            final(self).success == old(self).success,
            final(self).messages == old(self).messages,
            final(self).data == old(self).data,
    {
        self.trait_updates.push(trait_obj);
    }

    /// Appends several proposed trait updates, in order.
    pub fn add_trait_updates(&mut self, trait_updates: Vec<Trait>)
        ensures
            final(self).trait_updates@ == old(self).trait_updates@ + trait_updates@,
            final(self).success == old(self).success,
            final(self).messages == old(self).messages,
            final(self).data == old(self).data,
    {
        let mut rest = trait_updates;
        self.trait_updates.append(&mut rest);
    }

    /// Appends one message.
    pub fn add_message(&mut self, message: String)
        ensures
            final(self).messages@ == old(self).messages@.push(message),
            final(self).success == old(self).success,
            final(self).trait_updates == old(self).trait_updates,
            final(self).data == old(self).data,
    {
        self.messages.push(message);
    }

    /// Appends several messages, in order.
    pub fn add_messages(&mut self, messages: Vec<String>)
        ensures
            final(self).messages@ == old(self).messages@ + messages@,
            final(self).success == old(self).success,
            final(self).trait_updates == old(self).trait_updates,
            final(self).data == old(self).data,
    {
        let mut rest = messages;
        self.messages.append(&mut rest);
    }

    /// Stores a result datum under a key.
    pub fn add_data(&mut self, key: String, value: serde_json::Value)
        requires
            old(self).data.wf(),
        ensures
            final(self).data.wf(),
            final(self).data.spec_get(key@) == Some(value),
            forall|k2: Seq<char>| k2 != key@ ==> final(self).data.spec_get(k2) == old(
                self,
            ).data.spec_get(k2),
            final(self).success == old(self).success,
            final(self).trait_updates == old(self).trait_updates,
            final(self).messages == old(self).messages,
    {
        self.data.insert(key, value);
    }

    /// Reserves capacity for expected updates and messages.
    pub fn reserve_capacity(&mut self, trait_updates: usize, messages: usize)
        ensures
            final(self).trait_updates@ == old(self).trait_updates@,
            final(self).messages@ == old(self).messages@,
            final(self).success == old(self).success,
            final(self).data == old(self).data,
    {
        self.trait_updates.reserve(trait_updates);
        self.messages.reserve(messages);
    }

    pub fn is_success(&self) -> (r: bool)
        ensures
            r == self.success,
    {
        self.success
    }

    pub fn is_failure(&self) -> (r: bool)
        ensures
            r == !self.success,
    {
        !self.success
    }

    pub fn trait_update_count(&self) -> (r: usize)
        ensures
            r == self.trait_updates@.len(),
    {
        self.trait_updates.len()
    }

    pub fn message_count(&self) -> (r: usize)
        ensures
            r == self.messages@.len(),
    {
        self.messages.len()
    }

    pub fn data_count(&self) -> (r: usize)
        ensures
            r == self.data@.len(),
    {
        self.data.len()
    }

    pub fn clear_trait_updates(&mut self)
        ensures
            final(self).trait_updates@ =~= Seq::<Trait>::empty(),
            final(self).success == old(self).success,
            final(self).messages == old(self).messages,
            final(self).data == old(self).data,
    {
        self.trait_updates.clear();
    }

    pub fn clear_messages(&mut self)
        ensures
            final(self).messages@ =~= Seq::<String>::empty(),
            final(self).success == old(self).success,
            final(self).trait_updates == old(self).trait_updates,
            final(self).data == old(self).data,
    {
        self.messages.clear();
    }

    pub fn clear_data(&mut self)
        ensures
            final(self).data@ =~= Seq::<(Seq<char>, serde_json::Value)>::empty(),
            final(self).data.wf(),
            final(self).success == old(self).success,
            final(self).trait_updates == old(self).trait_updates,
            final(self).messages == old(self).messages,
    {
        self.data.clear();
    }
}

/// An action: a named, stateless unit of logic from a context to a
/// result. `execute` only reads from the context; any change it wants is
/// expressed as a returned trait update. Precondition failures surface
/// as typed errors, never as panics.
pub trait Action: Sized {
    fn name(&self) -> &str;

    fn description(&self) -> &str;

    fn execute(&self, context: ActionContext) -> Result<ActionResult, OatsError>
        requires
            context.wf(),
    ;

    /// Trait names the action needs on its target; none unless the
    /// implementor overrides.
    fn required_traits(&self) -> (r: Vec<String>)
        default_ensures
            r@.len() == 0,
    {
        Vec::new()
    }

    /// Trait names the action can use but does not need; none unless
    /// the implementor overrides.
    fn optional_traits(&self) -> (r: Vec<String>)
        default_ensures
            r@.len() == 0,
    {
        Vec::new()
    }
}

} // verus!
