//! An arena of spawnable entities.
//!
//! Every visual child entity a character owns (skeleton bones, mesh parts,
//! hit colliders) lives in one shared arena. An entity is addressed by the
//! index at which it was spawned; despawning marks the slot dead and never
//! reuses it, so a stale reference to a despawned entity can be detected
//! and skipped rather than faulting.

use vstd::prelude::*;

use crate::MAX_ENTITIES;

verus! {

/// The arena: slot `i` is `true` while entity `i` is live.
pub struct EntityArena {
    slots: Vec<bool>,
}

impl EntityArena {
    /// True when `id` names a currently live entity.
    pub closed spec fn live(self, id: u64) -> bool {
        id < self.slots@.len() && self.slots@[id as int]
    }

    /// How many entity identifiers have ever been handed out.
    pub closed spec fn spawned_count(self) -> nat {
        self.slots@.len()
    }

    pub fn new() -> (arena: EntityArena)
        ensures
            arena.spawned_count() == 0,
            forall|id: u64| !arena.live(id),
    {
        EntityArena { slots: Vec::new() }
    }

    /// Spawn a fresh entity; its identifier was never live before.
    pub fn spawn(&mut self) -> (id: u64)
        requires
            old(self).spawned_count() < MAX_ENTITIES,
        ensures
            id == old(self).spawned_count(),
            final(self).spawned_count() == old(self).spawned_count() + 1,
            final(self).live(id),
            forall|j: u64| j != id ==> final(self).live(j) == old(self).live(j),
    {
        let id = self.slots.len();
        self.slots.push(true);
        id as u64
    }

    /// Despawn `id`. Tolerates a stale reference: despawning an entity that
    /// is already gone (or was never spawned) changes nothing.
    pub fn despawn(&mut self, id: u64)
        ensures
            final(self).spawned_count() == old(self).spawned_count(),
            !final(self).live(id),
            forall|j: u64| j != id ==> final(self).live(j) == old(self).live(j),
    {
        if id < self.slots.len() as u64 {
            let i = id as usize;
            let slot = &mut self.slots[i];
            *slot = false;
        }
    }

    /// A live entity's identifier is always below the spawn counter; a
    /// freshly spawned identifier therefore never collides with one that
    /// was live before.
    pub broadcast proof fn lemma_live_bound(self, id: u64)
        ensures
            #[trigger] self.live(id) ==> id < self.spawned_count(),
    {
    }

    /// True when `id` is live; the existence check made before any despawn
    /// of a recorded child reference.
    pub fn is_live(&self, id: u64) -> (r: bool)
        ensures
            r == self.live(id),
    {
        id < self.slots.len() as u64 && self.slots[id as usize]
    }
}

} // verus!
