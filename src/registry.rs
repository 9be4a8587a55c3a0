use std::collections::HashMap;
use vstd::prelude::*;

use crate::models::RecordId;

verus! {

broadcast use vstd::std_specs::hash::group_hash_axioms;

/// The connection registry: for each connected user, the handle of the one
/// live outbound channel of its session.
///
/// The channel type is left to the caller, so that the registry itself holds
/// no runtime machinery.
pub struct Manager<C> {
    clients: HashMap<RecordId, C>,
}

impl<C> View for Manager<C> {
    type V = Map<RecordId, C>;

    closed spec fn view(&self) -> Map<RecordId, C> {
        self.clients@
    }
}

impl<C> Manager<C> {
    /// An empty registry: nobody is online.
    pub fn new() -> (r: Manager<C>)
        ensures
            r@ == Map::<RecordId, C>::empty(),
    {
        Manager { clients: HashMap::new() }
    }

    /// Registers `key`'s channel, replacing any earlier one (last registration wins).
    pub fn insert(&mut self, key: RecordId, value: C)
        ensures
            final(self)@ == old(self)@.insert(key, value),
    {
        self.clients.insert(key, value);
    }

    /// Unregisters `key`; nothing happens when it is not registered.
    pub fn remove(&mut self, key: RecordId)
        ensures
            final(self)@ == old(self)@.remove(key),
    {
        self.clients.remove(&key);
    }

    /// The channel of `key`, when `key` is online.
    pub fn find(&self, key: &RecordId) -> (r: Option<&C>)
        ensures
            match r {
                Some(c) => self@.contains_key(*key) && self@[*key] == *c,
                None => !self@.contains_key(*key),
            },
    {
        self.clients.get(key)
    }

    /// Whether `key` is online.
    pub fn is_online(&self, key: RecordId) -> (r: bool)
        ensures
            r == self@.contains_key(key),
    {
        self.clients.contains_key(&key)
    }
}

} // verus!
