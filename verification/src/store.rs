//! The authoritative entity store: a container of entity records, each an
//! open set of optional component values. The simulation loop owns the one
//! mutable reference to it; every reader goes through the published
//! snapshot instead.

use vstd::prelude::*;
use crate::components::{
    Binding, Bond, DecayComponent, DisplayText, EntityType, Filament, Moment, Motif,
    Thread, ThreadId, ThreadName, ThreadType,
};

verus! {

/// One entity: a row of optional components. A component the entity does
/// not carry is `None`; laws and queries select entities by the components
/// they carry, as an ECS query would.
#[derive(Debug, Clone)]
pub struct EntityRecord {
    pub moment: Option<Moment>,
    pub thread: Option<Thread>,
    pub filament: Option<Filament>,
    pub motif: Option<Motif>,
    pub bond: Option<Bond>,
    pub binding: Option<Binding>,
    pub entity_type: Option<EntityType>,
    pub display_text: Option<DisplayText>,
    pub thread_type: Option<ThreadType>,
    pub thread_name: Option<ThreadName>,
    pub thread_id: Option<ThreadId>,
    pub decay: Option<DecayComponent>,
}

impl EntityRecord {
    /// A well-formed record carries a well-formed decay state, if any.
    pub open spec fn wf(self) -> bool {
        self.decay is Some ==> self.decay.unwrap().wf()
    }

    /// A record with no components; spawn sites fill in what they carry.
    pub fn empty() -> (e: EntityRecord)
        ensures
            e.moment is None,
            e.thread is None,
            e.filament is None,
            e.motif is None,
            e.bond is None,
            e.binding is None,
            e.entity_type is None,
            e.display_text is None,
            e.thread_type is None,
            e.thread_name is None,
            e.thread_id is None,
            e.decay is None,
            e.wf(),
    {
        EntityRecord {
            moment: None,
            thread: None,
            filament: None,
            motif: None,
            bond: None,
            binding: None,
            entity_type: None,
            display_text: None,
            thread_type: None,
            thread_name: None,
            thread_id: None,
            decay: None,
        }
    }
}

/// The authoritative store. Entities are never deleted; ingestion appends
/// and laws mutate decay state in place.
#[derive(Debug)]
pub struct EntityStore {
    pub entities: Vec<EntityRecord>,
}

impl EntityStore {
    pub open spec fn wf(self) -> bool {
        forall|i: int| 0 <= i < self.entities@.len() ==> (#[trigger] self.entities@[i]).wf()
    }

    pub fn new() -> (s: EntityStore)
        ensures
            s.entities@.len() == 0,
            s.wf(),
    {
        EntityStore { entities: Vec::new() }
    }

    pub fn len(&self) -> (n: usize)
        ensures
            n == self.entities@.len(),
    {
        self.entities.len()
    }

    /// Insert a new entity; existing entities are untouched.
    pub fn spawn(&mut self, record: EntityRecord)
        requires
            record.wf(),
        ensures
            final(self).entities@ == old(self).entities@.push(record),
            old(self).wf() ==> final(self).wf(),
    {
        self.entities.push(record);
    }
}

/// Whether `tag` occurs in `tags`, compared by character content.
pub open spec fn tag_in(tags: Seq<String>, tag: Seq<char>) -> bool {
    exists|i: int| 0 <= i < tags.len() && (#[trigger] tags[i])@ == tag
}

/// Whether `tag` occurs in `tags`.
pub fn contains_tag(tags: &Vec<String>, tag: &String) -> (b: bool)
    ensures
        b == tag_in(tags@, tag@),
{
    let n = tags.len();
    for i in 0..n
        invariant
            n == tags@.len(),
            forall|j: int| 0 <= j < i ==> (#[trigger] tags@[j])@ != tag@,
    {
        if tags[i] == *tag {
            return true;
        }
    }
    false
}

} // verus!
