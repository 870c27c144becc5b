use familiar_hot_path::common::GqlCommand;
use familiar_hot_path::components::Visibility;
use familiar_hot_path::ingestion::apply_commands;
use familiar_hot_path::memory_system::MemorySystem;
use familiar_hot_path::snapshot::WorldSnapshot;
use familiar_hot_path::store::EntityStore;
use std::sync::{Arc, Mutex};

const NOW: u64 = 1_700_000_000;

fn apply_one(cmd: GqlCommand) -> EntityStore {
    let mut store = EntityStore::new();
    apply_commands(&mut store, &vec![cmd], NOW);
    store
}

#[test]
fn create_moment_spawns_a_full_component_set() {
    let store = apply_one(GqlCommand::CreateMoment {
        text: "Alice laughs".to_string(),
        thread_id: "6ba7b810-9dad-11d1-80b4-00c04fd430c8".to_string(),
    });
    assert_eq!(store.entities.len(), 1);
    let e = &store.entities[0];
    assert_eq!(e.entity_type.as_ref().unwrap().0, "moment");
    assert_eq!(e.display_text.as_ref().unwrap().0, "Alice laughs");
    assert_eq!(
        e.thread_id.as_ref().unwrap().0,
        "6ba7b810-9dad-11d1-80b4-00c04fd430c8"
    );
    let d = e.decay.unwrap();
    assert_eq!(d.strength, 1_000_000);
    assert_eq!(d.half_life, 300);
    assert_eq!(d.last_update, NOW);
    let m = e.moment.as_ref().unwrap();
    let expected = uuid::Uuid::parse_str("6ba7b810-9dad-11d1-80b4-00c04fd430c8")
        .unwrap()
        .as_u128();
    assert_eq!(m.thread_id, expected);
    assert!(m.base.id.is_some());
    assert_eq!(m.base.created_at, Some(NOW as i64));
    assert_eq!(m.base.tags, vec!["moment"]);
    assert_eq!(m.base.sub_type.as_deref(), Some("moment"));
    assert!(matches!(m.base.visibility, Visibility::Private));
    assert_eq!(m.base.version, 1);
}

#[test]
fn unparseable_identifier_is_silently_nil() {
    // An identifier that is no UUID is not rejected: the nil identifier
    // is substituted, an inherited leniency kept deliberately.
    let store = apply_one(GqlCommand::CreateMoment {
        text: "memo".to_string(),
        thread_id: "not-a-uuid".to_string(),
    });
    assert_eq!(store.entities[0].moment.as_ref().unwrap().thread_id, 0);
}

#[test]
fn create_thread_uses_its_name_as_thread_id() {
    let store = apply_one(GqlCommand::CreateThread {
        name: "Alice".to_string(),
        thread_type: "person".to_string(),
    });
    let e = &store.entities[0];
    assert_eq!(e.entity_type.as_ref().unwrap().0, "thread");
    assert_eq!(e.display_text.as_ref().unwrap().0, "Alice");
    assert_eq!(e.thread_type.as_ref().unwrap().0, "person");
    assert_eq!(e.thread_id.as_ref().unwrap().0, "Alice");
    assert_eq!(e.decay.unwrap().half_life, 600);
    assert_eq!(e.thread.as_ref().unwrap().base.tags, vec!["person"]);
}

#[test]
fn create_filament_starts_fast_decaying() {
    let store = apply_one(GqlCommand::CreateFilament {
        content: "family comedian".to_string(),
        thread_name: "Bob".to_string(),
    });
    let e = &store.entities[0];
    assert_eq!(e.entity_type.as_ref().unwrap().0, "filament");
    assert_eq!(e.thread_name.as_ref().unwrap().0, "Bob");
    assert_eq!(e.decay.unwrap().half_life, 45);
    assert_eq!(e.decay.unwrap().strength, 1_000_000);
}

#[test]
fn create_motif_raises_weak_strengths_to_the_floor() {
    let weak = apply_one(GqlCommand::CreateMotif {
        pattern: "family-warmth".to_string(),
        strength: 50_000,
    });
    assert_eq!(weak.entities[0].decay.unwrap().strength, 100_000);
    assert_eq!(weak.entities[0].decay.unwrap().half_life, 90);
    let strong = apply_one(GqlCommand::CreateMotif {
        pattern: "family-warmth".to_string(),
        strength: 900_000,
    });
    assert_eq!(strong.entities[0].decay.unwrap().strength, 900_000);
}

#[test]
fn create_bond_derives_its_strengths_from_affinity() {
    let store = apply_one(GqlCommand::CreateBond {
        thread1: "Alice".to_string(),
        thread2: "Bob".to_string(),
        affinity: 880_000,
    });
    let e = &store.entities[0];
    assert_eq!(e.entity_type.as_ref().unwrap().0, "bond");
    assert_eq!(e.display_text.as_ref().unwrap().0, "Alice ⟷ Bob");
    let b = e.bond.as_ref().unwrap();
    assert_eq!(b.affinity_score, 880_000);
    // bond strength is affinity * 0.8
    assert_eq!(b.bond_strength, 704_000);
    assert_eq!(b.base.tags, vec!["bond", "Alice", "Bob"]);
    assert_eq!(e.decay.unwrap().strength, 880_000);
    assert_eq!(e.decay.unwrap().half_life, 120);
}

#[test]
fn create_binding_links_moment_and_thread() {
    let m = "6ba7b810-9dad-11d1-80b4-00c04fd430c8";
    let t = "6ba7b811-9dad-11d1-80b4-00c04fd430c8";
    let store = apply_one(GqlCommand::CreateBinding {
        moment_id: m.to_string(),
        thread_id: t.to_string(),
    });
    let e = &store.entities[0];
    assert_eq!(e.entity_type.as_ref().unwrap().0, "binding");
    assert_eq!(
        e.display_text.as_ref().unwrap().0,
        format!("Binding {} → {}", m, t)
    );
    let b = e.binding.as_ref().unwrap();
    assert_eq!(b.points.len(), 1);
    assert_eq!(b.points[0].moment_id, uuid::Uuid::parse_str(m).unwrap().as_u128());
    assert_eq!(b.points[0].thread_id, uuid::Uuid::parse_str(t).unwrap().as_u128());
    assert_eq!(b.thread_ids, vec![uuid::Uuid::parse_str(t).unwrap().as_u128()]);
    assert_eq!(e.decay.unwrap().strength, 800_000);
    assert_eq!(e.decay.unwrap().half_life, 60);
}

#[test]
fn update_by_id_kinds_leave_the_store_untouched() {
    let mut store = EntityStore::new();
    apply_commands(
        &mut store,
        &vec![
            GqlCommand::UpdateStrength {
                entity_id: "x".to_string(),
                new_strength: 1,
            },
            GqlCommand::UpdateDisplayText {
                entity_id: "x".to_string(),
                new_text: "t".to_string(),
            },
            GqlCommand::AddEntityTag {
                entity_id: "x".to_string(),
                tag: "t".to_string(),
            },
            GqlCommand::SoftDeleteEntity {
                entity_id: "x".to_string(),
            },
        ],
        NOW,
    );
    assert_eq!(store.entities.len(), 0);
}

#[test]
fn a_batch_appends_in_arrival_order() {
    let mut store = EntityStore::new();
    apply_commands(
        &mut store,
        &vec![
            GqlCommand::CreateThread {
                name: "Alice".to_string(),
                thread_type: "person".to_string(),
            },
            GqlCommand::SoftDeleteEntity {
                entity_id: "x".to_string(),
            },
            GqlCommand::CreateMoment {
                text: "hi".to_string(),
                thread_id: "Alice".to_string(),
            },
        ],
        NOW,
    );
    assert_eq!(store.entities.len(), 2);
    assert_eq!(store.entities[0].entity_type.as_ref().unwrap().0, "thread");
    assert_eq!(store.entities[1].entity_type.as_ref().unwrap().0, "moment");
}

#[test]
fn the_simulation_starts_with_the_initial_thread() {
    let (_tx, rx) = crossbeam_channel::unbounded::<GqlCommand>();
    let cell = Arc::new(Mutex::new(WorldSnapshot::empty()));
    let system = MemorySystem::new(rx, cell, NOW);
    assert_eq!(system.world.entities.len(), 1);
    let e = &system.world.entities[0];
    assert_eq!(e.entity_type.as_ref().unwrap().0, "thread");
    assert_eq!(e.display_text.as_ref().unwrap().0, "Memory Lane");
    assert_eq!(e.thread_type.as_ref().unwrap().0, "pathway");
    assert_eq!(e.decay.unwrap().half_life, 1800);
    assert_eq!(e.thread.as_ref().unwrap().base.tags, vec!["initial"]);
    assert_eq!(system.entity_count_history, vec![1]);
    assert_eq!(system.law_specifications.laws.len(), 2);
}

#[test]
fn a_tick_drains_the_queue_and_runs_the_laws() {
    let (tx, rx) = crossbeam_channel::unbounded::<GqlCommand>();
    let cell = Arc::new(Mutex::new(WorldSnapshot::empty()));
    let mut system = MemorySystem::new(rx, cell, NOW);
    tx.send(GqlCommand::CreateFilament {
        content: "fleeting".to_string(),
        thread_name: "Alice".to_string(),
    })
    .unwrap();
    tx.send(GqlCommand::CreateMotif {
        pattern: "warmth".to_string(),
        strength: 500_000,
    })
    .unwrap();
    let published = system.tick(NOW + 45);
    assert!(published);
    assert_eq!(system.world.entities.len(), 3);
    // The fresh filament was created at the tick's own instant, so no
    // time has elapsed for it yet and decay leaves it at full strength.
    let filament = &system.world.entities[1];
    assert_eq!(filament.decay.unwrap().strength, 1_000_000);
    // The initial thread is not decay-eligible and keeps its stamp.
    let thread = &system.world.entities[0];
    assert_eq!(thread.decay.unwrap().last_update, NOW);
    // A second tick, one filament half-life later: the filament halves.
    let published_again = system.tick(NOW + 90);
    assert!(published_again);
    let filament = &system.world.entities[1];
    assert_eq!(filament.decay.unwrap().strength, 500_000);
    // The queue was drained by the first tick: nothing new appeared.
    assert_eq!(system.world.entities.len(), 3);
}
