//! The two-tier memory cache: a working-memory cache keyed by entity
//! identifier, a deduplicated consolidation queue, and an append-only
//! primary-memory sink that is still a stub (it records nothing). The
//! background schedule that triggers consolidation and cleanup lives with
//! the binary; every decision either makes is here.
//!
//! Identifiers are UUID values in their 128-bit integer form; timestamps
//! are whole seconds since the epoch.

use vstd::prelude::*;

verus! {

/// One cached entity: its serialized data and access bookkeeping.
#[derive(Debug, Clone)]
pub struct WorkingMemoryEntry {
    pub entity_id: u128,
    pub data: Vec<u8>,
    pub access_count: u32,
    pub last_accessed: i64,
    pub created_at: i64,
    pub ttl_seconds: Option<u64>,
}

/// What kind of change an append-only record describes.
#[derive(Debug, Clone, Copy, PartialEq, Eq, Structural)]
pub enum EventType {
    EntityCreated,
    ComponentUpdated,
    EntityTagAdded,
    EntitySoftDeleted,
    EntityConsolidated,
}

/// One append-only record bound for primary memory.
#[derive(Debug, Clone)]
pub struct PrimaryMemoryEntry {
    pub entity_id: u128,
    pub version: u64,
    pub data: Vec<u8>,
    pub timestamp: i64,
    pub event_type: EventType,
    pub checksum: String,
}

/// Why a persistence operation failed. No current operation fails; the
/// variants exist for the unstubbed tiers.
#[derive(Debug, Clone)]
pub enum PersistenceError {
    Redis(String),
    Database(String),
    Serialization(String),
    EntityNotFound(u128),
}

/// Cache occupancy summary.
#[derive(Debug, Clone, Copy, PartialEq, Eq, Structural)]
pub struct MemoryStats {
    pub working_memory_entries: usize,
    pub consolidation_queue_size: usize,
    pub total_access_count: u32,
}

/// Whether some cache entry carries `id`.
pub open spec fn wm_has(s: Seq<WorkingMemoryEntry>, id: u128) -> bool {
    exists|i: int| 0 <= i < s.len() && (#[trigger] s[i]).entity_id == id
}

/// Whether `id` is queued.
pub open spec fn queued(q: Seq<u128>, id: u128) -> bool {
    exists|i: int| 0 <= i < q.len() && q[i] == id
}

/// An entry past its time-to-live at time `now`.
pub open spec fn expired(e: WorkingMemoryEntry, now: i64) -> bool {
    e.ttl_seconds is Some && now - e.created_at > e.ttl_seconds.unwrap()
}

/// The entries of `s` not yet expired at `now`, in order.
pub open spec fn retained(s: Seq<WorkingMemoryEntry>, now: i64) -> Seq<WorkingMemoryEntry>
    decreases s.len(),
{
    if s.len() == 0 {
        s
    } else {
        let rest = retained(s.drop_last(), now);
        if expired(s.last(), now) {
            rest
        } else {
            rest.push(s.last())
        }
    }
}

/// Every retained entry is one of the originals.
proof fn lemma_retained_membership(s: Seq<WorkingMemoryEntry>, now: i64)
    ensures
        retained(s, now).len() <= s.len(),
        forall|i: int| 0 <= i < retained(s, now).len()
            ==> exists|j: int| 0 <= j < s.len() && #[trigger] retained(s, now)[i] == s[j],
    decreases s.len(),
{
    if s.len() > 0 {
        lemma_retained_membership(s.drop_last(), now);
        assert forall|i: int| 0 <= i < retained(s, now).len()
            implies exists|j: int| 0 <= j < s.len() && #[trigger] retained(s, now)[i] == s[j] by {
            let r = retained(s, now);
            let rest = retained(s.drop_last(), now);
            if i < rest.len() {
                let j = choose|j: int| 0 <= j < s.drop_last().len()
                    && #[trigger] retained(s.drop_last(), now)[i] == s.drop_last()[j];
                assert(r[i] == s[j]);
            } else {
                assert(r[i] == s[s.len() - 1]);
            }
        }
    }
}

/// Retaining keeps the identifiers pairwise distinct.
proof fn lemma_retained_unique(s: Seq<WorkingMemoryEntry>, now: i64)
    requires
        forall|i: int, j: int| 0 <= i < j < s.len()
            ==> (#[trigger] s[i]).entity_id != (#[trigger] s[j]).entity_id,
    ensures
        forall|i: int, j: int| 0 <= i < j < retained(s, now).len()
            ==> (#[trigger] retained(s, now)[i]).entity_id
                != (#[trigger] retained(s, now)[j]).entity_id,
    decreases s.len(),
{
    if s.len() > 0 {
        assert(forall|i: int, j: int| 0 <= i < j < s.drop_last().len()
            ==> (#[trigger] s.drop_last()[i]).entity_id != (#[trigger] s.drop_last()[j]).entity_id);
        lemma_retained_unique(s.drop_last(), now);
        lemma_retained_membership(s.drop_last(), now);
        let r = retained(s, now);
        let rest = retained(s.drop_last(), now);
        if !expired(s.last(), now) {
            assert forall|i: int, j: int| 0 <= i < j < r.len()
                implies (#[trigger] r[i]).entity_id != (#[trigger] r[j]).entity_id by {
                if j == r.len() - 1 {
                    let j0 = choose|j0: int| 0 <= j0 < s.drop_last().len()
                        && #[trigger] retained(s.drop_last(), now)[i] == s.drop_last()[j0];
                    assert(r[i] == s[j0]);
                    assert(r[j] == s[s.len() - 1]);
                } else {
                    assert(r[i] == rest[i] && r[j] == rest[j]);
                }
            }
        }
    }
}

/// The identifiers in `q` also queued after `id` was deduplicated in.
pub open spec fn queue_after_enqueue(q: Seq<u128>, id: u128) -> Seq<u128> {
    if queued(q, id) {
        q
    } else {
        q.push(id)
    }
}

/// How many of the queued identifiers have a cache entry.
pub open spec fn count_cached(q: Seq<u128>, wm: Seq<WorkingMemoryEntry>) -> int
    decreases q.len(),
{
    if q.len() == 0 {
        0
    } else {
        count_cached(q.drop_last(), wm) + if wm_has(wm, q.last()) { 1int } else { 0int }
    }
}

proof fn lemma_count_cached_le_len(q: Seq<u128>, wm: Seq<WorkingMemoryEntry>)
    ensures
        0 <= count_cached(q, wm) <= q.len(),
    decreases q.len(),
{
    if q.len() > 0 {
        lemma_count_cached_le_len(q.drop_last(), wm);
    }
}

/// Sum of the access counts.
pub open spec fn sum_access(s: Seq<WorkingMemoryEntry>) -> int
    decreases s.len(),
{
    if s.len() == 0 {
        0
    } else {
        sum_access(s.drop_last()) + s.last().access_count
    }
}

/// The persistence layer's in-process state: the working-memory cache and
/// the consolidation queue. The real key-value and append-only stores
/// behind them are not wired up yet.
#[derive(Debug)]
pub struct MemoryPersistence {
    pub working_memory: Vec<WorkingMemoryEntry>,
    pub consolidation_queue: Vec<u128>,
}

impl MemoryPersistence {
    /// Cache keys and queued identifiers are pairwise distinct.
    pub open spec fn wf(self) -> bool {
        &&& forall|i: int, j: int| 0 <= i < j < self.working_memory@.len()
            ==> (#[trigger] self.working_memory@[i]).entity_id
                != (#[trigger] self.working_memory@[j]).entity_id
        &&& forall|i: int, j: int| 0 <= i < j < self.consolidation_queue@.len()
            ==> self.consolidation_queue@[i] != self.consolidation_queue@[j]
    }

    pub fn new() -> (p: MemoryPersistence)
        ensures
            p.working_memory@.len() == 0,
            p.consolidation_queue@.len() == 0,
            p.wf(),
    {
        MemoryPersistence { working_memory: Vec::new(), consolidation_queue: Vec::new() }
    }

    /// Store an entity's data in working memory at time `now`: a fresh
    /// entry with one access replaces the entry under the same identifier,
    /// or is appended when the identifier is new. Never fails.
    pub fn store_working_memory(
        &mut self,
        entity_id: u128,
        data: Vec<u8>,
        ttl_seconds: Option<u64>,
        now: i64,
    ) -> (r: Result<(), PersistenceError>)
        requires
            old(self).wf(),
        ensures
            r is Ok,
            final(self).wf(),
            final(self).consolidation_queue@ == old(self).consolidation_queue@,
            ({
                let entry = WorkingMemoryEntry {
                    entity_id,
                    data,
                    access_count: 1,
                    last_accessed: now,
                    created_at: now,
                    ttl_seconds,
                };
                if wm_has(old(self).working_memory@, entity_id) {
                    exists|k: int| 0 <= k < old(self).working_memory@.len()
                        && (#[trigger] old(self).working_memory@[k]).entity_id == entity_id
                        && final(self).working_memory@
                            == old(self).working_memory@.update(k, entry)
                } else {
                    final(self).working_memory@ == old(self).working_memory@.push(entry)
                }
            }),
    {
        let ghost wm0 = self.working_memory@;
        match self.find_working_entry(entity_id) {
            Some(i) => {
                self.working_memory[i] = WorkingMemoryEntry {
                    entity_id,
                    data,
                    access_count: 1,
                    last_accessed: now,
                    created_at: now,
                    ttl_seconds,
                };
                proof {
                    assert(self.working_memory@ =~= wm0.update(
                        i as int,
                        WorkingMemoryEntry {
                            entity_id,
                            data,
                            access_count: 1,
                            last_accessed: now,
                            created_at: now,
                            ttl_seconds,
                        }));
                    assert forall|a: int, b: int| 0 <= a < b < self.working_memory@.len()
                        implies (#[trigger] self.working_memory@[a]).entity_id
                            != (#[trigger] self.working_memory@[b]).entity_id by {
                        assert(wm0[a].entity_id != wm0[b].entity_id);
                        assert(wm0[i as int].entity_id == entity_id);
                    }
                }
                Ok(())
            },
            None => {
                self.working_memory.push(WorkingMemoryEntry {
                    entity_id,
                    data,
                    access_count: 1,
                    last_accessed: now,
                    created_at: now,
                    ttl_seconds,
                });
                proof {
                    assert forall|a: int, b: int| 0 <= a < b < self.working_memory@.len()
                        implies (#[trigger] self.working_memory@[a]).entity_id
                            != (#[trigger] self.working_memory@[b]).entity_id by {
                        if b == self.working_memory@.len() - 1 {
                            assert(!wm_has(wm0, entity_id));
                            assert(wm0[a].entity_id != entity_id);
                        } else {
                            assert(wm0[a].entity_id != wm0[b].entity_id);
                        }
                    }
                }
                Ok(())
            },
        }
    }

    /// Fetch an entity's data from working memory at time `now`, counting
    /// the access (the counter saturates at its maximum) and stamping the
    /// access time. Absence is not an error: the result is `Ok(None)` and
    /// the cache is untouched.
    pub fn get_working_memory(
        &mut self,
        entity_id: u128,
        now: i64,
    ) -> (r: Result<Option<Vec<u8>>, PersistenceError>)
        requires
            old(self).wf(),
        ensures
            final(self).wf(),
            final(self).consolidation_queue@ == old(self).consolidation_queue@,
            !wm_has(old(self).working_memory@, entity_id) ==> {
                &&& r matches Ok(d) && d is None
                &&& final(self).working_memory@ == old(self).working_memory@
            },
            wm_has(old(self).working_memory@, entity_id)
                ==> exists|k: int| 0 <= k < old(self).working_memory@.len()
                    && (#[trigger] old(self).working_memory@[k]).entity_id == entity_id
                    && (r matches Ok(d) && d matches Some(bytes)
                        && bytes@ == old(self).working_memory@[k].data@)
                    && final(self).working_memory@ == old(self).working_memory@.update(
                        k,
                        WorkingMemoryEntry {
                            access_count: if old(self).working_memory@[k].access_count
                                    < 0xffff_ffffu32 {
                                (old(self).working_memory@[k].access_count + 1) as u32
                            } else {
                                old(self).working_memory@[k].access_count
                            },
                            last_accessed: now,
                            ..old(self).working_memory@[k]
                        }),
    {
        let ghost wm0 = self.working_memory@;
        let n = self.working_memory.len();
        let mut i: usize = 0;
        while i < n
            invariant
                self.working_memory@ == wm0,
                wm0 == old(self).working_memory@,
                self.consolidation_queue@ == old(self).consolidation_queue@,
                old(self).wf(),
                n == wm0.len(),
                i <= n,
                forall|j: int| 0 <= j < i ==> (#[trigger] wm0[j]).entity_id != entity_id,
            decreases n - i,
        {
            if self.working_memory[i].entity_id == entity_id {
                let count = self.working_memory[i].access_count;
                let bumped = if count < 0xffff_ffffu32 { count + 1 } else { count };
                self.working_memory[i].access_count = bumped;
                self.working_memory[i].last_accessed = now;
                let out = self.working_memory[i].data.clone();
                proof {
                    assert(self.working_memory@ =~= wm0.update(
                        i as int,
                        WorkingMemoryEntry {
                            access_count: bumped,
                            last_accessed: now,
                            ..wm0[i as int]
                        }));
                    assert forall|a: int, b: int| 0 <= a < b < self.working_memory@.len()
                        implies (#[trigger] self.working_memory@[a]).entity_id
                            != (#[trigger] self.working_memory@[b]).entity_id by {
                        assert(wm0[a].entity_id != wm0[b].entity_id);
                    }
                }
                return Ok(Some(out));
            }
            i = i + 1;
        }
        proof {
            assert(!wm_has(old(self).working_memory@, entity_id));
        }
        return Ok(None);
    }

    /// Append one record to primary memory. The append-only store is not
    /// wired up yet: the record is accepted and dropped.
    pub fn append_primary_memory(&self, _entry: PrimaryMemoryEntry) -> (r: Result<(), PersistenceError>)
        ensures
            r is Ok,
    {
        Ok(())
    }

    /// Queue an entity for consolidation, once: queueing an already queued
    /// identifier changes nothing.
    pub fn queue_for_consolidation(&mut self, entity_id: u128)
        requires
            old(self).wf(),
        ensures
            final(self).wf(),
            final(self).working_memory@ == old(self).working_memory@,
            final(self).consolidation_queue@
                == queue_after_enqueue(old(self).consolidation_queue@, entity_id),
            queued(final(self).consolidation_queue@, entity_id),
    {
        let ghost q0 = self.consolidation_queue@;
        let n = self.consolidation_queue.len();
        let mut i: usize = 0;
        while i < n
            invariant
                self.consolidation_queue@ == q0,
                q0 == old(self).consolidation_queue@,
                self.working_memory@ == old(self).working_memory@,
                old(self).wf(),
                n == q0.len(),
                i <= n,
                forall|j: int| 0 <= j < i ==> q0[j] != entity_id,
            decreases n - i,
        {
            if self.consolidation_queue[i] == entity_id {
                proof {
                    assert(queued(q0, entity_id));
                }
                return ;
            }
            i = i + 1;
        }
        proof {
            assert(!queued(q0, entity_id));
        }
        self.consolidation_queue.push(entity_id);
        proof {
            assert(self.consolidation_queue@[q0.len() as int] == entity_id);
            assert(queued(self.consolidation_queue@, entity_id));
            assert forall|a: int, b: int| 0 <= a < b < self.consolidation_queue@.len()
                implies self.consolidation_queue@[a] != self.consolidation_queue@[b] by {
                if b == self.consolidation_queue@.len() - 1 {
                    assert(q0[a] != entity_id);
                }
            }
        }
    }

    /// Drain the consolidation queue, moving every queued entity that has
    /// a cache entry towards primary memory; reports how many were moved.
    /// The cache itself is untouched.
    pub fn process_consolidation(&mut self, now: i64) -> (r: Result<usize, PersistenceError>)
        requires
            old(self).wf(),
        ensures
            final(self).wf(),
            final(self).working_memory@ == old(self).working_memory@,
            final(self).consolidation_queue@.len() == 0,
            r matches Ok(n_done) && n_done
                == count_cached(old(self).consolidation_queue@, old(self).working_memory@),
    {
        let ghost q0 = self.consolidation_queue@;
        let ghost wm0 = self.working_memory@;
        proof {
            lemma_count_cached_le_len(q0, wm0);
        }
        let mut processed: usize = 0;
        let n = self.consolidation_queue.len();
        for i in 0..n
            invariant
                self.consolidation_queue@ == q0,
                self.working_memory@ == wm0,
                self.wf(),
                n == q0.len(),
                processed == count_cached(q0.take(i as int), wm0),
                processed <= i,
        {
            proof {
                assert(q0.take(i + 1).drop_last() =~= q0.take(i as int));
                assert(q0.take(i + 1).last() == q0[i as int]);
            }
            let entity_id = self.consolidation_queue[i];
            match self.find_working_entry(entity_id) {
                Some(k) => {
                    let data = self.working_memory[k].data.clone();
                    let checksum = hex_length_checksum(&data);
                    let record = PrimaryMemoryEntry {
                        entity_id,
                        version: 1,
                        data,
                        timestamp: now,
                        event_type: EventType::EntityConsolidated,
                        checksum,
                    };
                    let _ = self.append_primary_memory(record);
                    processed = processed + 1;
                },
                None => {},
            }
        }
        proof {
            assert(q0.take(n as int) =~= q0);
        }
        self.consolidation_queue.clear();
        Ok(processed)
    }

    /// The index of the cache entry carrying `id`, if any.
    fn find_working_entry(&self, id: u128) -> (r: Option<usize>)
        ensures
            r matches Some(k) ==> k < self.working_memory@.len()
                && self.working_memory@[k as int].entity_id == id,
            r is None ==> !wm_has(self.working_memory@, id),
            (r is Some) == wm_has(self.working_memory@, id),
    {
        let n = self.working_memory.len();
        let mut i: usize = 0;
        while i < n
            invariant
                n == self.working_memory@.len(),
                i <= n,
                forall|j: int| 0 <= j < i
                    ==> (#[trigger] self.working_memory@[j]).entity_id != id,
            decreases n - i,
        {
            if self.working_memory[i].entity_id == id {
                return Some(i);
            }
            i = i + 1;
        }
        None
    }

    /// Evict every cache entry past its time-to-live at `now`; reports how
    /// many were evicted. Entries without a time-to-live stay forever.
    pub fn cleanup_working_memory(&mut self, now: i64) -> (r: Result<usize, PersistenceError>)
        requires
            old(self).wf(),
        ensures
            final(self).wf(),
            final(self).consolidation_queue@ == old(self).consolidation_queue@,
            final(self).working_memory@ == retained(old(self).working_memory@, now),
            r matches Ok(removed) && removed
                == old(self).working_memory@.len() - retained(old(self).working_memory@, now).len(),
    {
        let ghost wm0 = self.working_memory@;
        proof {
            lemma_retained_membership(wm0, now);
            lemma_retained_unique(wm0, now);
            assert(wm0.len() == self.working_memory.len());
            assert(wm0.take(0) =~= Seq::<WorkingMemoryEntry>::empty());
            assert(wm0.skip(0) =~= wm0);
            assert(self.working_memory@ =~= retained(wm0.take(0), now) + wm0.skip(0));
        }
        let mut removed: usize = 0;
        let ghost consumed: int = 0;
        let mut i: usize = 0;
        while i < self.working_memory.len()
            invariant
                self.consolidation_queue@ == old(self).consolidation_queue@,
                wm0 == old(self).working_memory@,
                old(self).wf(),
                0 <= consumed <= wm0.len(),
                i == retained(wm0.take(consumed), now).len(),
                self.working_memory@.len() == i + (wm0.len() - consumed),
                removed == consumed - i,
                wm0.len() <= usize::MAX,
                self.working_memory@ == retained(wm0.take(consumed), now) + wm0.skip(consumed),
            decreases wm0.len() - consumed,
        {
            proof {
                assert(consumed < wm0.len());
                assert(wm0.take(consumed + 1).drop_last() =~= wm0.take(consumed));
                assert(wm0.take(consumed + 1).last() == wm0[consumed]);
                assert(self.working_memory@[i as int] == wm0[consumed]);
            }
            let e = &self.working_memory[i];
            let is_expired = match e.ttl_seconds {
                Some(ttl) => {
                    let age: i128 = (now as i128) - (e.created_at as i128);
                    age > ttl as i128
                },
                None => false,
            };
            if is_expired {
                let _ = self.working_memory.remove(i);
                removed = removed + 1;
                proof {
                    assert(self.working_memory@
                        =~= retained(wm0.take(consumed + 1), now) + wm0.skip(consumed + 1));
                }
            } else {
                i = i + 1;
                proof {
                    assert(self.working_memory@
                        =~= retained(wm0.take(consumed + 1), now) + wm0.skip(consumed + 1));
                }
            }
            proof {
                consumed = consumed + 1;
            }
        }
        proof {
            assert(consumed == wm0.len());
            assert(wm0.take(consumed) =~= wm0);
            assert(wm0.skip(consumed) =~= Seq::<WorkingMemoryEntry>::empty());
            assert(self.working_memory@ =~= retained(wm0, now));
        }
        Ok(removed)
    }

    /// The checksum recorded with an append-only record: the data length
    /// in lower-case hexadecimal.
    pub fn calculate_checksum(&self, data: &Vec<u8>) -> (r: String)
        ensures
            r@ == lower_hex_of(data@.len() as int),
    {
        hex_length_checksum(data)
    }

    /// Cache occupancy: entry and queue counts, and the total access
    /// count over all entries (saturating at the counter's maximum).
    pub fn get_memory_stats(&self) -> (r: MemoryStats)
        ensures
            r.working_memory_entries == self.working_memory@.len(),
            r.consolidation_queue_size == self.consolidation_queue@.len(),
            r.total_access_count == if sum_access(self.working_memory@) <= 0xffff_ffff {
                sum_access(self.working_memory@)
            } else {
                0xffff_ffff
            },
    {
        let ghost wm = self.working_memory@;
        let mut total: u32 = 0;
        let n = self.working_memory.len();
        for i in 0..n
            invariant
                self.working_memory@ == wm,
                n == wm.len(),
                total == if sum_access(wm.take(i as int)) <= 0xffff_ffff {
                    sum_access(wm.take(i as int))
                } else {
                    0xffff_ffffint
                },
        {
            proof {
                assert(wm.take(i + 1).drop_last() =~= wm.take(i as int));
                assert(wm.take(i + 1).last() == wm[i as int]);
            }
            let c = self.working_memory[i].access_count;
            total = if total <= 0xffff_ffffu32 - c { total + c } else { 0xffff_ffffu32 };
        }
        proof {
            assert(wm.take(n as int) =~= wm);
        }
        MemoryStats {
            working_memory_entries: self.working_memory.len(),
            consolidation_queue_size: self.consolidation_queue.len(),
            total_access_count: total,
        }
    }
}

/// The digits a data block's length has in lower-case hexadecimal; a
/// function of the length alone. Named for core::fmt's LowerHex rendering.
pub uninterp spec fn lower_hex_of(n: int) -> Seq<char>;

/// Relies on core::fmt (the `format!` machinery, `{:x}`): renders the data
/// length in lower-case hexadecimal; the digits depend on the length
/// alone, and carry the name `lower_hex_of`.
#[verifier::external_body]
fn hex_length_checksum(data: &Vec<u8>) -> (r: String)
    ensures
        r@ == lower_hex_of(data@.len() as int),
{
    format!("{:x}", data.len())
}

} // verus!
