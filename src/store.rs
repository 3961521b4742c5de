//! Single-use storage of pending ceremony state, keyed by principal id.
use std::collections::HashMap;
use vstd::prelude::*;

verus! {

broadcast use {
    vstd::std_specs::hash::group_hash_axioms,
    vstd::std_specs::hash::axiom_u128_obeys_hash_table_key_model,
    vstd::std_specs::hash::axiom_random_state_builds_valid_hashers,
};

/// What taking `id` out of the pending states `m` hands back.
pub open spec fn taken<T>(m: Map<u128, T>, id: u128) -> Option<T> {
    if m.contains_key(id) {
        Some(m[id])
    } else {
        None
    }
}

/// Pending ceremony state of one kind, at most one per principal. A state
/// stays until it is taken or replaced.
pub struct CeremonyStore<T> {
    entries: HashMap<u128, T>,
}

impl<T> View for CeremonyStore<T> {
    type V = Map<u128, T>;

    closed spec fn view(&self) -> Map<u128, T> {
        self.entries@
    }
}

impl<T> CeremonyStore<T> {
    pub fn new() -> (r: Self)
        ensures
            r@ == Map::<u128, T>::empty(),
    {
        Self { entries: HashMap::new() }
    }

    /// Stores `state` for `id`, replacing any state still pending for it.
    pub fn put(&mut self, id: u128, state: T)
        ensures
            final(self)@ == old(self)@.insert(id, state),
    {
        self.entries.insert(id, state);
    }

    /// Removes and returns the state pending for `id`, if any.
    pub fn take(&mut self, id: u128) -> (r: Option<T>)
        ensures
            r == taken(old(self)@, id),
            final(self)@ == old(self)@.remove(id),
    {
        self.entries.remove(&id)
    }

    /// Whether a state is pending for `id`.
    pub fn is_pending(&self, id: u128) -> (r: bool)
        ensures
            r == self@.contains_key(id),
    {
        self.entries.contains_key(&id)
    }
}

/// A stored state is handed out once: taking it returns it, and taking the
/// same id again finds nothing.
pub proof fn lemma_take_is_single_use<T>(m: Map<u128, T>, id: u128, state: T)
    ensures
        taken(m.insert(id, state), id) == Some(state),
        taken(m.insert(id, state).remove(id), id) is None,
        taken(m.remove(id), id) is None,
{
}

} // verus!
