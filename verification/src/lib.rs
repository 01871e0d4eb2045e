//! Objects, actions, traits and systems: a small orchestration runtime.
//!
//! Identity-bearing [`Object`]s hold named, versioned [`Trait`] values;
//! stateless [`Action`]s map an [`ActionContext`] to an [`ActionResult`];
//! [`System`]s run actions over batches of objects and keep statistics;
//! a [`SystemManager`] owns the object registry and dispatches systems
//! in priority order.

#![allow(unused_imports)]

use vstd::prelude::*;

mod clock;
mod ids;
mod json;

pub mod actions;
pub mod error;
pub mod health;
pub mod idmap;
pub mod laws;
pub mod objects;
pub mod strmap;
pub mod systems;
pub mod text;
pub mod traits;

pub use actions::{Action, ActionContext, ActionResult};
pub use error::OatsError;
pub use health::{TestHealthSystem, TestIncrementAction};
pub use idmap::IdMap;
pub use objects::Object;
pub use strmap::StringMap;
pub use systems::{Priority, SimpleSystem, System, SystemManager, SystemStats};
pub use traits::{Trait, TraitData};

verus! {

/// A plain container that collects objects, actions and systems for a
/// caller to wire together.
pub struct OatsSystem<A: Action, S: System> {
    pub objects: Vec<Object>,
    pub actions: Vec<A>,
    pub systems: Vec<S>,
}

impl<A: Action, S: System> OatsSystem<A, S> {
    pub fn new() -> (r: Self)
        ensures
            r.objects@ =~= Seq::<Object>::empty(),
            r.actions@ =~= Seq::<A>::empty(),
            r.systems@ =~= Seq::<S>::empty(),
    {
        OatsSystem { objects: Vec::new(), actions: Vec::new(), systems: Vec::new() }
    }

    pub fn with_capacity(objects: usize, actions: usize, systems: usize) -> (r: Self)
        ensures
            r.objects@ =~= Seq::<Object>::empty(),
            r.actions@ =~= Seq::<A>::empty(),
            r.systems@ =~= Seq::<S>::empty(),
    {
        OatsSystem {
            objects: Vec::with_capacity(objects),
            actions: Vec::with_capacity(actions),
            systems: Vec::with_capacity(systems),
        }
    }

    pub fn add_object(&mut self, object: Object)
        ensures
            final(self).objects@ == old(self).objects@.push(object),
            final(self).actions == old(self).actions,
            final(self).systems == old(self).systems,
    {
        self.objects.push(object);
    }

    /// Appends several objects, in order.
    pub fn add_objects(&mut self, objects: Vec<Object>)
        ensures
            final(self).objects@ == old(self).objects@ + objects@,
            final(self).actions == old(self).actions,
            final(self).systems == old(self).systems,
    {
        let mut rest = objects;
        self.objects.append(&mut rest);
    }

    pub fn add_action(&mut self, action: A)
        ensures
            final(self).actions@ == old(self).actions@.push(action),
            final(self).objects == old(self).objects,
            final(self).systems == old(self).systems,
    {
        self.actions.push(action);
    }

    pub fn add_system(&mut self, system: S)
        ensures
            final(self).systems@ == old(self).systems@.push(system),
            final(self).objects == old(self).objects,
            final(self).actions == old(self).actions,
    {
        self.systems.push(system);
    }

    pub fn objects(&self) -> (r: &Vec<Object>)
        ensures
            *r == self.objects,
    {
        &self.objects
    }

    pub fn actions(&self) -> (r: &Vec<A>)
        ensures
            *r == self.actions,
    {
        &self.actions
    }

    pub fn systems(&self) -> (r: &Vec<S>)
        ensures
            *r == self.systems,
    {
        &self.systems
    }

    pub fn object_count(&self) -> (r: usize)
        ensures
            r == self.objects@.len(),
    {
        self.objects.len()
    }

    pub fn action_count(&self) -> (r: usize)
        ensures
            r == self.actions@.len(),
    {
        self.actions.len()
    }

    pub fn system_count(&self) -> (r: usize)
        ensures
            r == self.systems@.len(),
    {
        self.systems.len()
    }

    pub fn clear_objects(&mut self)
        ensures
            final(self).objects@ =~= Seq::<Object>::empty(),
            final(self).actions == old(self).actions,
            final(self).systems == old(self).systems,
    {
        self.objects.clear();
    }

    pub fn clear_actions(&mut self)
        ensures
            final(self).actions@ =~= Seq::<A>::empty(),
            final(self).objects == old(self).objects,
            final(self).systems == old(self).systems,
    {
        self.actions.clear();
    }

    pub fn clear_systems(&mut self)
        ensures
            final(self).systems@ =~= Seq::<S>::empty(),
            final(self).objects == old(self).objects,
            final(self).actions == old(self).actions,
    {
        self.systems.clear();
    }

    pub fn reserve_objects(&mut self, additional: usize)
        ensures
            final(self).objects@ == old(self).objects@,
            final(self).actions == old(self).actions,
            final(self).systems == old(self).systems,
    {
        self.objects.reserve(additional);
    }

    pub fn reserve_actions(&mut self, additional: usize)
        ensures
            final(self).actions@ == old(self).actions@,
            final(self).objects == old(self).objects,
            final(self).systems == old(self).systems,
    {
        self.actions.reserve(additional);
    }

    pub fn reserve_systems(&mut self, additional: usize)
        ensures
            final(self).systems@ == old(self).systems@,
            final(self).objects == old(self).objects,
            final(self).actions == old(self).actions,
    {
        self.systems.reserve(additional);
    }
}

impl<A: Action, S: System> Default for OatsSystem<A, S> {
    fn default() -> (r: Self)
        ensures
            r.objects@ =~= Seq::<Object>::empty(),
            r.actions@ =~= Seq::<A>::empty(),
            r.systems@ =~= Seq::<S>::empty(),
    {
        OatsSystem::new()
    }
}

} // verus!
