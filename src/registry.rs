use std::collections::HashMap;
use vstd::prelude::*;

verus! {

broadcast use vstd::std_specs::hash::group_hash_axioms;

/// A piece of memory whose address has been handed to the kernel.
///
/// `B` is the caller's handle on a byte buffer (for instance a reference
/// counted buffer of an embedding host): the registry only keeps it alive.
/// The other kinds are owned byte blocks laid out as the kernel reads them.
pub enum Pinned<B> {
    /// A buffer the kernel writes into (read, receive).
    MutableBuffer(B),
    /// A buffer the kernel reads from (write, send).
    ImmutableBuffer(B),
    /// A path with its terminating null byte.
    Path(Vec<u8>),
    /// A timeout specification in the kernel's layout.
    Timeout(Vec<u8>),
    /// A socket address in the kernel's layout.
    Address(Vec<u8>),
}

/// Owns every pinned resource, keyed by operation identifier.
///
/// Its model is a map from identifier to the one resource pinned under it.
pub struct Registry<B> {
    entries: HashMap<u64, Pinned<B>>,
}

impl<B> View for Registry<B> {
    type V = Map<u64, Pinned<B>>;

    closed spec fn view(&self) -> Map<u64, Pinned<B>> {
        self.entries@
    }
}

impl<B> Registry<B> {
    /// An empty registry.
    pub fn new() -> (r: Self)
        ensures
            r@ == Map::<u64, Pinned<B>>::empty(),
    {
        Registry { entries: HashMap::new() }
    }

    /// Takes ownership of `res` under `id`; a resource already pinned under
    /// `id` is dropped.
    pub fn pin(&mut self, id: u64, res: Pinned<B>)
        ensures
            final(self)@ == old(self)@.insert(id, res),
    {
        self.entries.insert(id, res);
    }

    /// Drops the resource pinned under `id`, if any. Returns whether one was
    /// there; releasing an absent identifier changes nothing.
    pub fn release(&mut self, id: u64) -> (released: bool)
        ensures
            final(self)@ == old(self)@.remove(id),
            released == old(self)@.contains_key(id),
    {
        let r = self.entries.remove(&id);
        r.is_some()
    }

    /// Drops every pinned resource.
    pub fn clear_all(&mut self)
        ensures
            final(self)@ == Map::<u64, Pinned<B>>::empty(),
    {
        self.entries.clear();
    }

    /// Whether a resource is pinned under `id`.
    pub fn is_pinned(&self, id: u64) -> (r: bool)
        ensures
            r == self@.contains_key(id),
    {
        self.entries.contains_key(&id)
    }

    /// The resource pinned under `id`, to read its address from.
    pub fn get(&self, id: u64) -> (r: Option<&Pinned<B>>)
        ensures
            r matches Some(p) ==> self@.contains_key(id) && *p == self@[id],
            r is None ==> !self@.contains_key(id),
    {
        self.entries.get(&id)
    }

    /// The number of pinned resources.
    pub fn len(&self) -> (r: usize)
        ensures
            r == self@.len(),
    {
        self.entries.len()
    }
}

} // verus!
