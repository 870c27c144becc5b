use familiar_hot_path::components::{DecayComponent, DisplayText, EntityType};
use familiar_hot_path::persistence::MemoryPersistence;
use familiar_hot_path::snapshot::{build_snapshot, sync_world_state, WorldSnapshot};
use familiar_hot_path::store::{EntityRecord, EntityStore};
use std::sync::{Arc, Mutex};

fn small_store() -> EntityStore {
    let mut store = EntityStore::new();
    let mut a = EntityRecord::empty();
    a.entity_type = Some(EntityType("thread".to_string()));
    a.display_text = Some(DisplayText("Memory Lane".to_string()));
    a.decay = Some(DecayComponent { strength: 1_000_000, half_life: 1800, last_update: 5 });
    store.spawn(a);
    // No display text: the snapshot skips this entity.
    let mut b = EntityRecord::empty();
    b.entity_type = Some(EntityType("moment".to_string()));
    store.spawn(b);
    let mut c = EntityRecord::empty();
    c.entity_type = Some(EntityType("moment".to_string()));
    c.display_text = Some(DisplayText("hi".to_string()));
    store.spawn(c);
    store
}

#[test]
fn snapshot_copies_tag_text_and_decay() {
    let snap = build_snapshot(&small_store());
    assert_eq!(snap.entries.len(), 2);
    assert_eq!(snap.entries[0].entity_type, "thread");
    assert_eq!(snap.entries[0].display_text, "Memory Lane");
    assert_eq!(
        snap.entries[0].decay,
        Some(DecayComponent { strength: 1_000_000, half_life: 1800, last_update: 5 })
    );
    assert_eq!(snap.entries[1].entity_type, "moment");
    assert_eq!(snap.entries[1].display_text, "hi");
    assert_eq!(snap.entries[1].decay, None);
}

#[test]
fn publishing_replaces_what_readers_see() {
    let store = small_store();
    let cell = Arc::new(Mutex::new(WorldSnapshot::empty()));
    assert_eq!(cell.lock().unwrap().entries.len(), 0);
    assert!(sync_world_state(&store, &cell));
    let seen = cell.lock().unwrap().clone();
    assert_eq!(seen.entries.len(), 2);
    assert_eq!(seen.entries[0].display_text, "Memory Lane");
}

#[test]
fn publication_is_skipped_while_a_reader_holds_the_cell() {
    let store = small_store();
    let cell = Arc::new(Mutex::new(WorldSnapshot::empty()));
    {
        let guard = cell.try_lock().unwrap();
        // A reader holds the cell: the writer skips rather than waits.
        assert!(!sync_world_state(&store, &cell));
        assert_eq!(guard.entries.len(), 0);
    }
    // The reader left: the next publication goes through.
    assert!(sync_world_state(&store, &cell));
    assert_eq!(cell.lock().unwrap().entries.len(), 2);
}

#[test]
fn working_memory_stores_and_returns_data() {
    let mut p = MemoryPersistence::new();
    p.store_working_memory(7, vec![1, 2, 3], Some(60), 100).unwrap();
    assert_eq!(p.get_working_memory(7, 110).unwrap(), Some(vec![1, 2, 3]));
    assert_eq!(p.get_working_memory(8, 110).unwrap(), None);
    assert_eq!(p.working_memory.len(), 1);
    assert_eq!(p.working_memory[0].access_count, 2);
    assert_eq!(p.working_memory[0].last_accessed, 110);
}

#[test]
fn storing_again_replaces_the_entry() {
    let mut p = MemoryPersistence::new();
    p.store_working_memory(7, vec![1], None, 100).unwrap();
    p.store_working_memory(7, vec![2, 2], Some(5), 200).unwrap();
    assert_eq!(p.working_memory.len(), 1);
    assert_eq!(p.working_memory[0].data, vec![2, 2]);
    assert_eq!(p.working_memory[0].access_count, 1);
    assert_eq!(p.working_memory[0].created_at, 200);
}

#[test]
fn consolidation_queue_deduplicates() {
    let mut p = MemoryPersistence::new();
    p.queue_for_consolidation(1);
    p.queue_for_consolidation(2);
    p.queue_for_consolidation(1);
    assert_eq!(p.consolidation_queue, vec![1, 2]);
}

#[test]
fn consolidation_processes_only_cached_entities() {
    let mut p = MemoryPersistence::new();
    p.store_working_memory(1, vec![9], None, 0).unwrap();
    p.queue_for_consolidation(1);
    p.queue_for_consolidation(2);
    let done = p.process_consolidation(50).unwrap();
    assert_eq!(done, 1);
    assert!(p.consolidation_queue.is_empty());
    assert_eq!(p.working_memory.len(), 1);
}

#[test]
fn cleanup_evicts_only_expired_entries() {
    let mut p = MemoryPersistence::new();
    p.store_working_memory(1, vec![1], Some(10), 0).unwrap();
    p.store_working_memory(2, vec![2], Some(100), 0).unwrap();
    p.store_working_memory(3, vec![3], None, 0).unwrap();
    let removed = p.cleanup_working_memory(11).unwrap();
    assert_eq!(removed, 1);
    let kept: Vec<u128> = p.working_memory.iter().map(|e| e.entity_id).collect();
    assert_eq!(kept, vec![2, 3]);
    // Exactly at the limit nothing expires.
    let removed_again = p.cleanup_working_memory(100).unwrap();
    assert_eq!(removed_again, 0);
}

#[test]
fn memory_stats_count_entries_and_accesses() {
    let mut p = MemoryPersistence::new();
    p.store_working_memory(1, vec![1], None, 0).unwrap();
    p.store_working_memory(2, vec![2], None, 0).unwrap();
    let _ = p.get_working_memory(1, 5);
    p.queue_for_consolidation(2);
    let stats = p.get_memory_stats();
    assert_eq!(stats.working_memory_entries, 2);
    assert_eq!(stats.consolidation_queue_size, 1);
    assert_eq!(stats.total_access_count, 3);
}

#[test]
fn checksum_is_the_data_length_in_hex() {
    let p = MemoryPersistence::new();
    assert_eq!(p.calculate_checksum(&vec![]), "0");
    assert_eq!(p.calculate_checksum(&vec![0u8; 16]), "10");
    assert_eq!(p.calculate_checksum(&vec![7u8; 255]), "ff");
}
