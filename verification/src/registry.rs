//! The process-wide value-type registry.
//!
//! Populated during an explicit startup registration phase and read-only
//! afterward, it records for each concrete value type which capability sets
//! (interfaces) the type implements. Runtime downcasts and sidecasts consult
//! it instead of language-level dynamic dispatch.

use vstd::prelude::*;

use crate::locator::{TraitTypeId, ValueTypeId};

verus! {

/// One registered concrete value type: its diagnostic name and the
/// capability sets it implements.
pub struct ValueTypeEntry {
    pub name: String,
    pub traits: Vec<TraitTypeId>,
}

/// The registry. A value type's id is its position among the registered
/// types; a capability id is valid when it is below `trait_count`.
pub struct Registry {
    pub value_types: Vec<ValueTypeEntry>,
    pub trait_count: usize,
}

impl Registry {
    /// A capability id the registry knows about.
    pub open spec fn trait_known(self, t: TraitTypeId) -> bool {
        t < self.trait_count
    }

    /// Whether the registered value type `v` implements capability `t`.
    pub open spec fn implements_spec(self, v: ValueTypeId, t: TraitTypeId) -> bool {
        v < self.value_types@.len() && self.value_types@[v as int].traits@.contains(t)
    }

    /// An empty registry: nothing registered yet.
    pub fn new() -> (r: Registry)
        ensures
            r.value_types@.len() == 0,
            r.trait_count == 0,
    {
        Registry { value_types: Vec::new(), trait_count: 0 }
    }

    /// Registers one more capability set and returns its id.
    pub fn register_trait(&mut self) -> (t: TraitTypeId)
        requires
            old(self).trait_count < usize::MAX,
        ensures
            t == old(self).trait_count,
            final(self).trait_count == old(self).trait_count + 1,
            final(self).value_types == old(self).value_types,
    {
        let t = self.trait_count;
        self.trait_count = self.trait_count + 1;
        t
    }

    /// Registers a concrete value type under the next free id, with its name
    /// and the capabilities it implements.
    pub fn register_value_type(&mut self, name: String, traits: Vec<TraitTypeId>) -> (v:
        ValueTypeId)
        ensures
            v == old(self).value_types@.len(),
            final(self).trait_count == old(self).trait_count,
            final(self).value_types@ == old(self).value_types@.push(
                ValueTypeEntry { name, traits },
            ),
    {
        let v = self.value_types.len();
        self.value_types.push(ValueTypeEntry { name, traits });
        v
    }

    /// Registry-backed capability lookup: whether value type `v` implements
    /// capability `t`.
    pub fn implements(&self, v: ValueTypeId, t: TraitTypeId) -> (r: bool)
        ensures
            r == self.implements_spec(v, t),
    {
        if v >= self.value_types.len() {
            return false;
        }
        let traits = &self.value_types[v].traits;
        let mut i: usize = 0;
        while i < traits.len()
            invariant
                i <= traits@.len(),
                v < self.value_types@.len(),
                traits == self.value_types@[v as int].traits,
                forall|j: int| 0 <= j < i ==> traits@[j] != t,
            decreases traits@.len() - i,
        {
            if traits[i] == t {
                return true;
            }
            i += 1;
        }
        false
    }

    /// The diagnostic name of a registered value type, if it is registered.
    pub fn name_of(&self, v: ValueTypeId) -> (r: Option<&String>)
        ensures
            match r {
                Some(n) => v < self.value_types@.len() && n@ == self.value_types@[v as int].name@,
                None => v >= self.value_types@.len(),
            },
    {
        if v < self.value_types.len() {
            Some(&self.value_types[v].name)
        } else {
            None
        }
    }
}

} // verus!
