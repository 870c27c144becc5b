//! Externally submitted mutation intents: one closed set of command kinds,
//! each carrying only plain string and numeric fields. A command is created
//! at the query boundary, consumed exactly once by ingestion, then
//! discarded. Strength-like fields are fixed-point values in millionths.

use vstd::prelude::*;

verus! {

#[derive(Debug, Clone)]
pub enum GqlCommand {
    CreateMoment { text: String, thread_id: String },
    CreateThread { name: String, thread_type: String },
    CreateFilament { content: String, thread_name: String },
    CreateMotif { pattern: String, strength: u64 },
    CreateBond { thread1: String, thread2: String, affinity: u64 },
    CreateBinding { moment_id: String, thread_id: String },
    UpdateStrength { entity_id: String, new_strength: u64 },
    UpdateDisplayText { entity_id: String, new_text: String },
    AddEntityTag { entity_id: String, tag: String },
    SoftDeleteEntity { entity_id: String },
}

impl GqlCommand {
    /// The kinds that insert a new entity. The update-by-id kinds are
    /// acknowledged but not realized: the store keeps no index from
    /// external identifiers to entities, an inherited limitation.
    pub open spec fn is_create(self) -> bool {
        match self {
            GqlCommand::CreateMoment { .. } => true,
            GqlCommand::CreateThread { .. } => true,
            GqlCommand::CreateFilament { .. } => true,
            GqlCommand::CreateMotif { .. } => true,
            GqlCommand::CreateBond { .. } => true,
            GqlCommand::CreateBinding { .. } => true,
            GqlCommand::UpdateStrength { .. } => false,
            GqlCommand::UpdateDisplayText { .. } => false,
            GqlCommand::AddEntityTag { .. } => false,
            GqlCommand::SoftDeleteEntity { .. } => false,
        }
    }
}

} // verus!
