//! Component types attached to entities, together with their
//! well-formedness conditions.
//!
//! Strength-like quantities (strength, thresholds, multipliers, law floors)
//! are fixed-point values in millionths of a unit: `1_000_000` stands for a
//! strength of one. Timestamps (`last_update`, `created_at`, ...) are whole
//! seconds since the epoch; half-lives are whole seconds.

use vstd::prelude::*;

verus! {

/// Fixed-point scale: one unit of strength.
pub const STRENGTH_SCALE: u64 = 1_000_000;

/// Largest representable strength (one million units). A machine limit of
/// the fixed-point representation; every stored strength stays below it.
pub const STRENGTH_CAP: u64 = 1_000_000_000_000;

/// Classifier tag component; the sole eligibility filter for laws
/// (`"moment"`, `"thread"`, `"filament"`, `"motif"`, `"bond"`, `"binding"`).
#[derive(Debug, Clone)]
pub struct EntityType(pub String);

/// Human-readable text shown for an entity.
#[derive(Debug, Clone)]
pub struct DisplayText(pub String);

/// Category of a thread entity (person, place, event, concept).
#[derive(Debug, Clone)]
pub struct ThreadType(pub String);

/// Name of the thread a filament interprets.
#[derive(Debug, Clone)]
pub struct ThreadName(pub String);

/// External identifier of the thread a moment belongs to.
#[derive(Debug, Clone)]
pub struct ThreadId(pub String);

/// State read and written by the decay and resonance laws.
#[derive(Debug, Clone, Copy, PartialEq, Eq, Structural)]
pub struct DecayComponent {
    /// Current strength, in millionths of a unit.
    pub strength: u64,
    /// Seconds for the strength to halve; always at least one.
    pub half_life: u64,
    /// Seconds since the epoch of the last law application.
    pub last_update: u64,
}

impl DecayComponent {
    /// Well-formedness: a positive half-life and a representable strength.
    pub open spec fn wf(self) -> bool {
        &&& self.strength <= STRENGTH_CAP
        &&& self.half_life >= 1
    }

    pub fn new(strength: u64, half_life: u64, last_update: u64) -> (d: DecayComponent)
        requires
            strength <= STRENGTH_CAP,
            half_life >= 1,
        ensures
            d == (DecayComponent { strength, half_life, last_update }),
            d.wf(),
    {
        DecayComponent { strength, half_life, last_update }
    }
}

/// Who may see an entity.
#[derive(Debug, Clone, Copy, PartialEq, Eq, Structural)]
pub enum Visibility {
    Private,
    Household,
    Org,
    Public,
}

/// What a grantee may do with an entity.
#[derive(Debug, Clone, Copy, PartialEq, Eq, Structural)]
pub enum AccessScope {
    View,
    Edit,
    Control,
}

/// Role of a binding point's moment with respect to its thread.
#[derive(Debug, Clone, Copy, PartialEq, Eq, Structural)]
pub enum Cardinality {
    Actor,
    Observer,
    Recipient,
    CoParticipant,
    Target,
}

/// Granularity of a temporal position.
#[derive(Debug, Clone, Copy, PartialEq, Eq, Structural)]
pub enum TemporalPrecision {
    Millisecond,
    Second,
    Minute,
    Hour,
    Day,
    Week,
    Month,
    Year,
    Decade,
}

/// Kind of temporal or causal relation between two entities.
#[derive(Debug, Clone, Copy, PartialEq, Eq, Structural)]
pub enum TemporalRelationType {
    Before,
    After,
    Simultaneous,
    CausallyLinked,
    TemporallyAdjacent,
    Recurrent,
}

/// Which memory tier an entity currently lives in.
#[derive(Debug, Clone, Copy, PartialEq, Eq, Structural)]
pub enum MemoryLayerType {
    WorkingMemory,
    PrimaryMemory,
    TransitionalMemory,
}

/// Progress of an entity through memory consolidation.
#[derive(Debug, Clone, Copy, PartialEq, Eq, Structural)]
pub enum ConsolidationStatus {
    Fresh,
    Consolidating,
    Consolidated,
    Archived,
}

/// Identity and bookkeeping fields shared by every domain entity.
/// Identifiers are UUID values carried as their 128-bit integer form.
#[derive(Debug, Clone)]
pub struct BaseEntity {
    pub id: Option<u128>,
    pub org_id: u128,
    pub owner_id: u128,
    pub created_at: Option<i64>,
    pub updated_at: Option<i64>,
    pub deleted_at: Option<i64>,
    pub tags: Vec<String>,
    pub component_ids: Vec<u128>,
    pub sub_type: Option<String>,
    pub visibility: Visibility,
    pub security_level: i64,
    pub access_scope: Vec<AccessScope>,
    pub version: i64,
    pub parent_version: Option<i64>,
}

/// A single memory scoped to one thread.
#[derive(Debug, Clone)]
pub struct Moment {
    pub base: BaseEntity,
    pub thread_id: u128,
    pub author_id: u128,
    pub binding_hint: Option<i64>,
    pub binding_id: Option<u128>,
    pub cardinality: Option<Cardinality>,
}

/// A memory category (person, place, event, concept).
#[derive(Debug, Clone)]
pub struct Thread {
    pub base: BaseEntity,
}

/// Interpretive data about a thread.
#[derive(Debug, Clone)]
pub struct Filament {
    pub base: BaseEntity,
}

/// An aggregated meaning pattern.
#[derive(Debug, Clone)]
pub struct Motif {
    pub base: BaseEntity,
}

/// A relationship between two threads. Affinity-derived quantities are
/// fixed-point values in millionths of a unit.
#[derive(Debug, Clone)]
pub struct Bond {
    pub base: BaseEntity,
    pub affinity_score: u64,
    pub bond_strength: u64,
    pub component_context: Vec<u128>,
    pub thread_ids: Vec<u128>,
}

/// One anchoring of a moment onto a thread.
#[derive(Debug, Clone, Copy, PartialEq, Eq, Structural)]
pub struct BindingPoint {
    pub thread_id: u128,
    pub moment_id: u128,
    pub cardinality: Cardinality,
}

impl BindingPoint {
    pub fn new(thread_id: u128, moment_id: u128, cardinality: Cardinality) -> (p: BindingPoint)
        ensures
            p == (BindingPoint { thread_id, moment_id, cardinality }),
    {
        BindingPoint { thread_id, moment_id, cardinality }
    }
}

/// A link from a moment to a secondary thread.
#[derive(Debug, Clone)]
pub struct Binding {
    pub base: BaseEntity,
    pub points: Vec<BindingPoint>,
    pub thread_ids: Vec<u128>,
}

} // verus!
