//! Blueprints for spawning pre-configured entities. The component sets
//! the catalog describes are not filled in yet: each blueprint spawns a
//! bare entity and hands back its handle, and the caller attaches
//! components.

use vstd::prelude::*;
use crate::store::{EntityRecord, EntityStore};

verus! {

/// A record carrying no components at all.
pub open spec fn is_bare(e: EntityRecord) -> bool {
    &&& e.moment is None && e.thread is None && e.filament is None
    &&& e.motif is None && e.bond is None && e.binding is None
    &&& e.entity_type is None && e.display_text is None
    &&& e.thread_type is None && e.thread_name is None && e.thread_id is None
    &&& e.decay is None
}

pub struct EntityBlueprints;

impl EntityBlueprints {
    /// Spawn one bare entity and hand back its handle (its store index).
    fn spawn_bare(world: &mut EntityStore) -> (handle: usize)
        requires
            old(world).wf(),
            old(world).entities@.len() < usize::MAX,
        ensures
            final(world).wf(),
            handle == old(world).entities@.len(),
            final(world).entities@.len() == old(world).entities@.len() + 1,
            final(world).entities@.drop_last() == old(world).entities@,
            is_bare(final(world).entities@.last()),
    {
        let handle = world.len();
        world.spawn(EntityRecord::empty());
        proof {
            assert(world.entities@.drop_last() =~= old(world).entities@);
        }
        handle
    }

    /// A Memory entity: a memory with decay and temporal positioning.
    pub fn spawn_memory(world: &mut EntityStore) -> (handle: usize)
        requires
            old(world).wf(),
            old(world).entities@.len() < usize::MAX,
        ensures
            final(world).wf(),
            handle == old(world).entities@.len(),
            final(world).entities@.len() == old(world).entities@.len() + 1,
            final(world).entities@.drop_last() == old(world).entities@,
            is_bare(final(world).entities@.last()),
    {
        Self::spawn_bare(world)
    }

    /// A Thread entity: a category for organizing memories.
    pub fn spawn_thread(world: &mut EntityStore) -> (handle: usize)
        requires
            old(world).wf(),
            old(world).entities@.len() < usize::MAX,
        ensures
            final(world).wf(),
            handle == old(world).entities@.len(),
            final(world).entities@.len() == old(world).entities@.len() + 1,
            final(world).entities@.drop_last() == old(world).entities@,
            is_bare(final(world).entities@.last()),
    {
        Self::spawn_bare(world)
    }

    /// A Moment entity: a specific moment within a thread.
    pub fn spawn_moment(world: &mut EntityStore) -> (handle: usize)
        requires
            old(world).wf(),
            old(world).entities@.len() < usize::MAX,
        ensures
            final(world).wf(),
            handle == old(world).entities@.len(),
            final(world).entities@.len() == old(world).entities@.len() + 1,
            final(world).entities@.drop_last() == old(world).entities@,
            is_bare(final(world).entities@.last()),
    {
        Self::spawn_bare(world)
    }

    /// An AgedEntity: an entity that ages over time.
    pub fn spawn_agedentity(world: &mut EntityStore) -> (handle: usize)
        requires
            old(world).wf(),
            old(world).entities@.len() < usize::MAX,
        ensures
            final(world).wf(),
            handle == old(world).entities@.len(),
            final(world).entities@.len() == old(world).entities@.len() + 1,
            final(world).entities@.drop_last() == old(world).entities@,
            is_bare(final(world).entities@.last()),
    {
        Self::spawn_bare(world)
    }

    /// A MemoryLayer entity: a memory layer for consolidation.
    pub fn spawn_memorylayer(world: &mut EntityStore) -> (handle: usize)
        requires
            old(world).wf(),
            old(world).entities@.len() < usize::MAX,
        ensures
            final(world).wf(),
            handle == old(world).entities@.len(),
            final(world).entities@.len() == old(world).entities@.len() + 1,
            final(world).entities@.drop_last() == old(world).entities@,
            is_bare(final(world).entities@.last()),
    {
        Self::spawn_bare(world)
    }
}

} // verus!
