//! Best-effort publication of a world copy for concurrent readers.
//!
//! Once per tick the writer rebuilds a structurally independent copy of the
//! store (classifier tag, display text, and decay state of every entity
//! that carries tag and text) and tries to swap it into a shared cell
//! without blocking: if a reader currently holds the cell, publication is
//! skipped for the tick. Readers block only each other, never the writer.

use vstd::prelude::*;
use std::sync::{Arc, Mutex};
use crate::components::DecayComponent;
use crate::store::{EntityRecord, EntityStore};

verus! {

/// What a reader sees of one entity: no referential identity with the
/// authoritative original.
#[derive(Debug, Clone)]
pub struct SnapshotEntry {
    pub entity_type: String,
    pub display_text: String,
    pub decay: Option<DecayComponent>,
}

/// Mathematical content of a snapshot entry.
pub ghost struct SnapshotEntryView {
    pub entity_type: Seq<char>,
    pub display_text: Seq<char>,
    pub decay: Option<DecayComponent>,
}

impl View for SnapshotEntry {
    type V = SnapshotEntryView;

    open spec fn view(&self) -> SnapshotEntryView {
        SnapshotEntryView {
            entity_type: self.entity_type@,
            display_text: self.display_text@,
            decay: self.decay,
        }
    }
}

/// A point-in-time copy of (a subset of) the store, rebuilt from scratch
/// every time it is published.
#[derive(Debug, Clone)]
pub struct WorldSnapshot {
    pub entries: Vec<SnapshotEntry>,
}

impl View for WorldSnapshot {
    type V = Seq<SnapshotEntryView>;

    open spec fn view(&self) -> Seq<SnapshotEntryView> {
        self.entries@.map_values(|e: SnapshotEntry| e@)
    }
}

impl WorldSnapshot {
    pub fn empty() -> (s: WorldSnapshot)
        ensures
            s@ =~= Seq::<SnapshotEntryView>::empty(),
    {
        WorldSnapshot { entries: Vec::new() }
    }
}

/// The snapshot contents a store yields: one entry per entity carrying
/// both a classifier tag and a display text, in store order, with its
/// decay state if present.
pub open spec fn snapshot_view_of(ents: Seq<EntityRecord>) -> Seq<SnapshotEntryView>
    decreases ents.len(),
{
    if ents.len() == 0 {
        Seq::empty()
    } else {
        let rest = snapshot_view_of(ents.drop_last());
        let e = ents.last();
        if e.entity_type is Some && e.display_text is Some {
            rest.push(SnapshotEntryView {
                entity_type: e.entity_type.unwrap().0@,
                display_text: e.display_text.unwrap().0@,
                decay: e.decay,
            })
        } else {
            rest
        }
    }
}

/// Build a fresh snapshot of the store: a structurally independent copy of
/// every entity that carries a classifier tag and a display text.
pub fn build_snapshot(store: &EntityStore) -> (snap: WorldSnapshot)
    ensures
        snap@ == snapshot_view_of(store.entities@),
{
    let ghost all = store.entities@;
    let mut entries: Vec<SnapshotEntry> = Vec::new();
    let n = store.entities.len();
    for i in 0..n
        invariant
            n == all.len(),
            store.entities@ == all,
            entries@.map_values(|e: SnapshotEntry| e@) == snapshot_view_of(all.take(i as int)),
    {
        proof {
            assert(all.take(i + 1).drop_last() =~= all.take(i as int));
            assert(all.take(i + 1).last() == all[i as int]);
        }
        let e = &store.entities[i];
        if e.entity_type.is_some() && e.display_text.is_some() {
            let entry = SnapshotEntry {
                entity_type: e.entity_type.as_ref().unwrap().0.clone(),
                display_text: e.display_text.as_ref().unwrap().0.clone(),
                decay: e.decay,
            };
            entries.push(entry);
        }
        proof {
            assert(entries@.map_values(|e: SnapshotEntry| e@)
                =~= snapshot_view_of(all.take(i as int + 1)));
        }
    }
    proof {
        assert(all.take(n as int) =~= all);
    }
    WorldSnapshot { entries }
}

#[verifier::external_type_specification]
#[verifier::external_body]
#[verifier::reject_recursive_types(T)]
pub struct ExMutex<T: ?Sized>(Mutex<T>);

/// Relies on std::sync::Mutex::try_lock: acquires the cell only if it is
/// free, never blocking; on success the cell's contents are replaced by
/// `snap` and the call reports `true`, otherwise the cell is untouched and
/// the call reports `false`. What it returns depends on concurrent
/// readers, so nothing is promised of it.
#[verifier::external_body]
fn try_publish(cell: &Arc<Mutex<WorldSnapshot>>, snap: WorldSnapshot) -> bool {
    match cell.try_lock() {
        Ok(mut guard) => {
            *guard = snap;
            true
        },
        Err(_) => false,
    }
}

/// Publish a fresh copy of the store for concurrent readers, unless a
/// reader currently holds the shared cell — then skip this tick rather
/// than stall the simulation loop. Returns whether publication happened.
/// What was handed to the cell is pinned by `build_snapshot`.
pub fn sync_world_state(store: &EntityStore, shared: &Arc<Mutex<WorldSnapshot>>) -> (published: bool)
{
    let snap = build_snapshot(store);
    try_publish(shared, snap)
}

} // verus!
