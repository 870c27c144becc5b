//! The simulation's state and its per-tick step: drain queued commands,
//! run the laws, publish a snapshot. The owner of the one mutable
//! reference to the authoritative store.
//!
//! The outer loop (sleeping a fixed interval between ticks, fetching the
//! clock, reporting status) lives with the binary; everything a tick
//! decides and computes is here.

use vstd::prelude::*;
use std::sync::{Arc, Mutex};
use crossbeam_channel::Receiver;
use crate::common::GqlCommand;
use crate::components::{
    DecayComponent, DisplayText, EntityType, Thread, ThreadType, STRENGTH_SCALE,
};
use crate::ingestion::{apply_commands, base_created, commands_realized, make_base};
use crate::law_executor::{execute_laws, spec_execute_laws};
use crate::snapshot::{sync_world_state, WorldSnapshot};
use crate::stats::{count_entities_by_type, count_tag, get_system_stats, SystemStats, TypeCount};
use crate::store::{EntityRecord, EntityStore};
use crate::systems::{LawSpecifications, LawTrigger};

verus! {

#[verifier::external_type_specification]
#[verifier::external_body]
#[verifier::reject_recursive_types(T)]
pub struct ExReceiver<T>(Receiver<T>);

/// Relies on crossbeam_channel::Receiver::try_iter: drains and returns the
/// commands already queued, oldest first, without ever blocking for new
/// ones. What is queued depends on concurrent senders, so nothing is
/// promised of the contents.
#[verifier::external_body]
fn drain_commands(rx: &Receiver<GqlCommand>) -> Vec<GqlCommand> {
    rx.try_iter().collect()
}

/// The one entity the world starts with: a very stable initial thread.
pub open spec fn initial_thread_matches(e: EntityRecord, now: u64) -> bool {
    &&& e.thread is Some
    &&& e.moment is None && e.filament is None && e.motif is None
    &&& e.bond is None && e.binding is None
    &&& e.entity_type is Some && e.entity_type.unwrap().0@ == "thread"@
    &&& e.display_text is Some && e.display_text.unwrap().0@ == "Memory Lane"@
    &&& e.thread_type is Some && e.thread_type.unwrap().0@ == "pathway"@
    &&& e.thread_name is None && e.thread_id is None
    &&& e.decay == Some(DecayComponent {
            strength: STRENGTH_SCALE, half_life: 1800, last_update: now })
    &&& {
        let t = e.thread.unwrap();
        &&& base_created(t.base, "thread"@, now)
        &&& t.base.tags@.len() == 1 && t.base.tags@[0]@ == "initial"@
    }
}

/// The simulation state: the authoritative store, the inbound command
/// queue, the published-snapshot cell shared with readers, the law
/// catalog, and a short history of entity counts for status reporting.
pub struct MemorySystem {
    pub world: EntityStore,
    pub command_receiver: Receiver<GqlCommand>,
    pub world_ref: Arc<Mutex<WorldSnapshot>>,
    pub law_specifications: LawSpecifications,
    pub entity_count_history: Vec<usize>,
}

impl MemorySystem {
    pub open spec fn wf(self) -> bool {
        &&& self.world.wf()
        &&& self.law_specifications.wf()
    }

    /// A fresh simulation: one stable initial thread in the store and the
    /// law catalog loaded from the schema.
    pub fn new(
        rx: Receiver<GqlCommand>,
        world_ref: Arc<Mutex<WorldSnapshot>>,
        now: u64,
    ) -> (s: MemorySystem)
        requires
            now <= 0x7fff_ffff_ffff_ffff,
        ensures
            s.wf(),
            s.world.entities@.len() == 1,
            initial_thread_matches(s.world.entities@[0], now),
            s.law_specifications.laws@.len() == 2,
            s.entity_count_history@ == seq![1usize],
    {
        let mut world = EntityStore::new();
        let mut e = EntityRecord::empty();
        e.thread = Some(Thread {
            base: make_base("initial".to_owned(), "thread".to_owned(), now),
        });
        e.display_text = Some(DisplayText("Memory Lane".to_owned()));
        e.thread_type = Some(ThreadType("pathway".to_owned()));
        e.entity_type = Some(EntityType("thread".to_owned()));
        e.decay = Some(DecayComponent {
            strength: STRENGTH_SCALE, half_life: 1800, last_update: now });
        world.spawn(e);
        let law_specifications = LawSpecifications::from_schema();
        let mut entity_count_history: Vec<usize> = Vec::new();
        entity_count_history.push(1);
        MemorySystem {
            world,
            command_receiver: rx,
            world_ref,
            law_specifications,
            entity_count_history,
        }
    }

    /// Drain every command queued since the previous tick — never waiting
    /// for new ones — and realize each in order. Existing entities are
    /// untouched; whatever batch was queued, what is appended realizes it.
    pub fn process_commands(&mut self, now: u64)
        requires
            old(self).wf(),
            now <= 0x7fff_ffff_ffff_ffff,
        ensures
            final(self).wf(),
            final(self).world.entities@.len() >= old(self).world.entities@.len(),
            final(self).world.entities@.take(old(self).world.entities@.len() as int)
                == old(self).world.entities@,
            exists|cs: Seq<GqlCommand>| commands_realized(
                cs, now,
                final(self).world.entities@.skip(old(self).world.entities@.len() as int)),
            final(self).law_specifications == old(self).law_specifications,
            final(self).entity_count_history == old(self).entity_count_history,
    {
        let cmds = drain_commands(&self.command_receiver);
        apply_commands(&mut self.world, &cmds, now);
        proof {
            let ghost appended = self.world.entities@.skip(
                old(self).world.entities@.len() as int);
            assert(commands_realized(cmds@, now, appended));
        }
    }

    /// Run every law on the tick trigger, in declaration order.
    pub fn run_ecs_systems(&mut self, now: u64)
        requires
            old(self).wf(),
        ensures
            final(self).wf(),
            final(self).world.entities@ == spec_execute_laws(
                old(self).law_specifications.laws@, LawTrigger::OnTick,
                old(self).world.entities@, now),
            final(self).law_specifications == old(self).law_specifications,
            final(self).entity_count_history == old(self).entity_count_history,
    {
        execute_laws(&mut self.world, &self.law_specifications, LawTrigger::OnTick, now);
    }

    /// Publish a fresh snapshot unless a reader holds the shared cell;
    /// never blocks the tick. Returns whether publication happened.
    pub fn sync_world_state(&self) -> bool {
        sync_world_state(&self.world, &self.world_ref)
    }

    /// Tally the world's entities by classifier tag.
    pub fn count_entities_by_type(&self) -> (r: Vec<TypeCount>)
        ensures
            forall|k: int| 0 <= k < r@.len()
                ==> (#[trigger] r@[k]).count
                    == count_tag(self.world.entities@, r@[k].entity_type@),
            forall|k1: int, k2: int| 0 <= k1 < k2 < r@.len()
                ==> (#[trigger] r@[k1]).entity_type@ != (#[trigger] r@[k2]).entity_type@,
    {
        count_entities_by_type(&self.world)
    }

    /// Record one status observation: append the current entity total to
    /// the short history (keeping at most the ten newest) and hand back
    /// the per-tag counts with the law-engine summary.
    pub fn show_status(&mut self) -> (r: (Vec<TypeCount>, SystemStats))
        requires
            old(self).wf(),
        ensures
            final(self).wf(),
            final(self).world.entities@ == old(self).world.entities@,
            final(self).law_specifications == old(self).law_specifications,
            ({
                let grown = old(self).entity_count_history@.push(
                    old(self).world.entities@.len() as usize);
                final(self).entity_count_history@ == if grown.len() > 10 {
                    grown.drop_first()
                } else {
                    grown
                }
            }),
            r.1.active_systems == old(self).law_specifications.laws@.len(),
            forall|k: int| 0 <= k < r.0@.len()
                ==> (#[trigger] r.0@[k]).count
                    == count_tag(old(self).world.entities@, r.0@[k].entity_type@),
            forall|k1: int, k2: int| 0 <= k1 < k2 < r.0@.len()
                ==> (#[trigger] r.0@[k1]).entity_type@ != (#[trigger] r.0@[k2]).entity_type@,
    {
        let counts = count_entities_by_type(&self.world);
        let stats = get_system_stats(&self.world, &self.law_specifications);
        let total = self.world.len();
        self.entity_count_history.push(total);
        if self.entity_count_history.len() > 10 {
            let _ = self.entity_count_history.remove(0);
            proof {
                assert(self.entity_count_history@
                    =~= old(self).entity_count_history@.push(total).drop_first());
            }
        }
        (counts, stats)
    }

    /// One full tick: ingest queued commands, apply the laws, publish.
    /// The store afterwards is the law execution applied to the old store
    /// plus some appended batch of freshly created entities.
    pub fn tick(&mut self, now: u64) -> (published: bool)
        requires
            old(self).wf(),
            now <= 0x7fff_ffff_ffff_ffff,
        ensures
            final(self).wf(),
            final(self).law_specifications == old(self).law_specifications,
            exists|appended: Seq<EntityRecord>| final(self).world.entities@
                == spec_execute_laws(
                    old(self).law_specifications.laws@, LawTrigger::OnTick,
                    old(self).world.entities@ + appended, now),
    {
        let ghost base_len = self.world.entities@.len() as int;
        self.process_commands(now);
        proof {
            let ghost mid = self.world.entities@;
            assert(mid =~= mid.take(base_len) + mid.skip(base_len));
        }
        let ghost mid = self.world.entities@;
        let ghost appended = mid.skip(base_len);
        self.run_ecs_systems(now);
        proof {
            assert(self.world.entities@ == spec_execute_laws(
                old(self).law_specifications.laws@, LawTrigger::OnTick,
                old(self).world.entities@ + appended, now));
        }
        self.sync_world_state()
    }
}

} // verus!
