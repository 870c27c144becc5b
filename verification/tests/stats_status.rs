use familiar_hot_path::common::GqlCommand;
use familiar_hot_path::components::{DecayComponent, DisplayText, EntityType};
use familiar_hot_path::memory_system::MemorySystem;
use familiar_hot_path::snapshot::WorldSnapshot;
use familiar_hot_path::stats::{count_entities_by_type, get_system_stats};
use familiar_hot_path::store::{EntityRecord, EntityStore};
use familiar_hot_path::systems::LawSpecifications;
use std::sync::{Arc, Mutex};

fn tagged(tag: &str, with_decay: bool) -> EntityRecord {
    let mut e = EntityRecord::empty();
    e.entity_type = Some(EntityType(tag.to_string()));
    e.display_text = Some(DisplayText(tag.to_string()));
    if with_decay {
        e.decay = Some(DecayComponent { strength: 500_000, half_life: 60, last_update: 0 });
    }
    e
}

#[test]
fn counts_group_by_tag_in_first_appearance_order() {
    let mut store = EntityStore::new();
    store.spawn(tagged("thread", true));
    store.spawn(tagged("moment", true));
    store.spawn(tagged("thread", false));
    store.spawn(tagged("filament", true));
    store.spawn(tagged("thread", true));
    let counts = count_entities_by_type(&store);
    let rows: Vec<(String, usize)> = counts
        .iter()
        .map(|c| (c.entity_type.clone(), c.count))
        .collect();
    assert_eq!(
        rows,
        vec![
            ("thread".to_string(), 3),
            ("moment".to_string(), 1),
            ("filament".to_string(), 1),
        ]
    );
}

#[test]
fn system_stats_count_decay_governed_entities() {
    let mut store = EntityStore::new();
    store.spawn(tagged("filament", true));
    store.spawn(tagged("moment", true));
    store.spawn(tagged("thread", true)); // not decay-governed
    store.spawn(tagged("motif", false)); // no decay state
    let specs = LawSpecifications::from_schema();
    let stats = get_system_stats(&store, &specs);
    assert_eq!(stats.active_systems, 2);
    assert_eq!(stats.affected_entities, 2);
}

#[test]
fn status_history_keeps_the_ten_newest_totals() {
    let (_tx, rx) = crossbeam_channel::unbounded::<GqlCommand>();
    let cell = Arc::new(Mutex::new(WorldSnapshot::empty()));
    let mut system = MemorySystem::new(rx, cell, 0);
    for _ in 0..12 {
        let (_counts, stats) = system.show_status();
        assert_eq!(stats.active_systems, 2);
    }
    assert_eq!(system.entity_count_history.len(), 10);
    assert!(system.entity_count_history.iter().all(|n| *n == 1));
}
