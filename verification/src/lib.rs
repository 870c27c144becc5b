//! Simulation core for a population of typed entities whose "strength"
//! attribute evolves under declaratively specified laws (exponential decay,
//! threshold-triggered resonance), while external mutation requests are
//! ingested concurrently with rule evaluation.
//!
//! Strengths are carried as fixed-point numbers in millionths of a unit
//! (`STRENGTH_SCALE`), timestamps as whole seconds since the epoch.

pub mod common;
pub mod components;
pub mod config;
pub mod decay_math;
pub mod entity_blueprints;
pub mod ingestion;
pub mod law_executor;
pub mod law_properties;
pub mod memory_system;
pub mod persistence;
pub mod registry;
pub mod snapshot;
pub mod stats;
pub mod store;
pub mod systems;
