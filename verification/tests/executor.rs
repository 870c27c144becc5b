use familiar_hot_path::components::{DecayComponent, DisplayText, EntityType};
use familiar_hot_path::entity_blueprints::EntityBlueprints;
use familiar_hot_path::law_executor::{execute_laws, run_physics_systems};
use familiar_hot_path::store::{EntityRecord, EntityStore};
use familiar_hot_path::systems::{LawSpecifications, LawTrigger};

fn entity(tag: &str, strength: u64, half_life: u64, last_update: u64) -> EntityRecord {
    let mut e = EntityRecord::empty();
    e.entity_type = Some(EntityType(tag.to_string()));
    e.display_text = Some(DisplayText(format!("{} entity", tag)));
    e.decay = Some(DecayComponent { strength, half_life, last_update });
    e
}

#[test]
fn tick_applies_decay_then_resonance_in_order() {
    let mut store = EntityStore::new();
    // A filament with an enormous half-life: decay barely touches it, so
    // it stays above the resonance threshold and resonance fires.
    store.spawn(entity("filament", 1_000_000, 1_000_000_000, 0));
    let specs = LawSpecifications::from_schema();
    run_physics_systems(&mut store, &specs, 10);
    let d = store.entities[0].decay.unwrap();
    // Decay: factor (10^6*(10^9-10) + 5*10^5*10) / 10^9 = 999_999 in
    // millionths, so 0.999999; resonance then amplifies by 1.2 and the
    // ceiling clamps at 1.0.
    assert_eq!(d.strength, 1_000_000);
    assert_eq!(d.last_update, 10);
}

#[test]
fn decay_lowers_a_moment_and_resonance_ignores_it() {
    let mut store = EntityStore::new();
    // Moments decay but are not in the resonance law's eligibility set,
    // so even a strength above the threshold is not amplified.
    store.spawn(entity("moment", 1_000_000, 1_000_000_000, 0));
    let specs = LawSpecifications::from_schema();
    run_physics_systems(&mut store, &specs, 10);
    let d = store.entities[0].decay.unwrap();
    assert_eq!(d.strength, 999_999);
    assert_eq!(d.last_update, 10);
}

#[test]
fn threads_are_not_governed_by_either_law() {
    let mut store = EntityStore::new();
    store.spawn(entity("thread", 1_000_000, 600, 0));
    let specs = LawSpecifications::from_schema();
    run_physics_systems(&mut store, &specs, 600);
    let d = store.entities[0].decay.unwrap();
    assert_eq!(d.strength, 1_000_000);
    assert_eq!(d.last_update, 0);
}

#[test]
fn decayed_filament_below_threshold_cannot_fire_resonance() {
    let mut store = EntityStore::new();
    // Pre-decay strength at the threshold: decay only lowers it, so the
    // resonance gate stays shut and the decayed value passes through.
    store.spawn(entity("filament", 850_000, 300, 0));
    let specs = LawSpecifications::from_schema();
    run_physics_systems(&mut store, &specs, 300);
    let d = store.entities[0].decay.unwrap();
    assert_eq!(d.strength, 425_000);
    assert_eq!(d.last_update, 300);
}

#[test]
fn unmatched_trigger_selects_no_laws() {
    let mut store = EntityStore::new();
    store.spawn(entity("filament", 900_000, 300, 0));
    let specs = LawSpecifications::from_schema();
    execute_laws(&mut store, &specs, LawTrigger::OnObservation, 300);
    let d = store.entities[0].decay.unwrap();
    assert_eq!(d.strength, 900_000);
    assert_eq!(d.last_update, 0);
}

#[test]
fn laws_touch_only_decay_state() {
    let mut store = EntityStore::new();
    store.spawn(entity("motif", 1_000_000, 300, 0));
    let specs = LawSpecifications::from_schema();
    run_physics_systems(&mut store, &specs, 300);
    let e = &store.entities[0];
    assert_eq!(e.entity_type.as_ref().unwrap().0, "motif");
    assert_eq!(e.display_text.as_ref().unwrap().0, "motif entity");
    assert!(e.thread_id.is_none());
    assert_eq!(e.decay.unwrap().strength, 500_000);
}

#[test]
fn entities_without_decay_state_are_skipped() {
    let mut store = EntityStore::new();
    let mut bare = EntityRecord::empty();
    bare.entity_type = Some(EntityType("filament".to_string()));
    bare.display_text = Some(DisplayText("tagless decay".to_string()));
    store.spawn(bare);
    let specs = LawSpecifications::from_schema();
    run_physics_systems(&mut store, &specs, 1_000);
    assert!(store.entities[0].decay.is_none());
    assert_eq!(store.entities.len(), 1);
}

#[test]
fn blueprints_spawn_bare_entities() {
    let mut store = EntityStore::new();
    let a = EntityBlueprints::spawn_memory(&mut store);
    let b = EntityBlueprints::spawn_thread(&mut store);
    let c = EntityBlueprints::spawn_moment(&mut store);
    assert_eq!((a, b, c), (0, 1, 2));
    assert_eq!(store.entities.len(), 3);
    assert!(store.entities[0].entity_type.is_none());
    assert!(store.entities[2].decay.is_none());
}
