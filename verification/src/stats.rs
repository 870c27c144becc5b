//! Status reporting over the store: entity counts by classifier tag, per
//! component tallies, and how many entities the decay law currently
//! governs.

use vstd::prelude::*;
use crate::law_executor::law_applies;
use crate::store::{contains_tag, EntityRecord, EntityStore};
use crate::systems::{LawSpecification, LawSpecifications};

verus! {

/// How many of `ents` the decay law governs: entities carrying tag and
/// decay state whose tag is in `applies`.
pub open spec fn count_law_targets(ents: Seq<EntityRecord>, applies: Seq<String>) -> int
    decreases ents.len(),
{
    if ents.len() == 0 {
        0
    } else {
        count_law_targets(ents.drop_last(), applies)
            + if law_applies(ents.last(), applies) { 1int } else { 0int }
    }
}

pub proof fn lemma_count_law_targets_le_len(ents: Seq<EntityRecord>, applies: Seq<String>)
    ensures
        0 <= count_law_targets(ents, applies) <= ents.len(),
    decreases ents.len(),
{
    if ents.len() > 0 {
        lemma_count_law_targets_le_len(ents.drop_last(), applies);
    }
}

/// The eligibility set of the first decay law in the catalog; empty when
/// the catalog holds none.
pub open spec fn first_decay_applies(laws: Seq<LawSpecification>) -> Seq<String>
    decreases laws.len(),
{
    if laws.len() == 0 {
        Seq::empty()
    } else {
        match laws.first() {
            LawSpecification::Decay(d) => d.applies_to@,
            LawSpecification::Resonance(_) => first_decay_applies(laws.drop_first()),
        }
    }
}

/// The eligibility set a law carries, for the decay kind.
pub open spec fn decay_applies_of(law: LawSpecification) -> Seq<String> {
    match law {
        LawSpecification::Decay(d) => d.applies_to@,
        LawSpecification::Resonance(_) => Seq::empty(),
    }
}

/// Monitoring summary of the law engine.
#[derive(Debug, Clone)]
pub struct SystemStats {
    pub active_systems: usize,
    pub affected_entities: usize,
    /// Diagnostic text only; nothing is promised of it.
    pub law_specifications: String,
}

/// Relies on core::fmt (the `format!` machinery) to render the diagnostic
/// law summary. The text is diagnostic only, so nothing is promised of it.
#[verifier::external_body]
fn law_summary_text(decay_targets: usize, resonance_active: usize) -> String {
    format!("decay: {}, resonance: {}", decay_targets, resonance_active)
}

/// How many law systems are active and how many entities the decay law
/// currently governs.
pub fn get_system_stats(store: &EntityStore, specs: &LawSpecifications) -> (r: SystemStats)
    ensures
        r.active_systems == specs.laws@.len(),
        r.affected_entities == count_law_targets(
            store.entities@, first_decay_applies(specs.laws@)),
{
    let ghost all = specs.laws@;
    // Locate the first decay law, if any.
    let mut decay_index: usize = specs.laws.len();
    let mut found_decay: bool = false;
    let mut j: usize = 0;
    proof {
        assert(all.skip(0) =~= all);
    }
    while j < specs.laws.len() && !found_decay
        invariant
            specs.laws@ == all,
            j <= all.len(),
            !found_decay ==> decay_index == all.len()
                && first_decay_applies(all) == first_decay_applies(all.skip(j as int)),
            found_decay ==> decay_index < all.len()
                && all[decay_index as int] is Decay
                && first_decay_applies(all) == decay_applies_of(all[decay_index as int]),
        decreases all.len() - j,
    {
        proof {
            assert(all.skip(j as int).first() == all[j as int]);
            assert(all.skip(j as int).drop_first() =~= all.skip(j as int + 1));
        }
        match &specs.laws[j] {
            LawSpecification::Decay(_) => {
                decay_index = j;
                found_decay = true;
                j = j + 1;
            },
            LawSpecification::Resonance(_) => {
                j = j + 1;
            },
        }
    }
    let ghost applies = first_decay_applies(all);
    let mut affected: usize = 0;
    if decay_index < specs.laws.len() {
        match &specs.laws[decay_index] {
            LawSpecification::Decay(decay_law) => {
                proof {
                    assert(decay_law.applies_to@ == applies);
                }
                affected = count_decay_targets(store, &decay_law.applies_to);
            },
            LawSpecification::Resonance(_) => {
                proof {
                    assert(false);
                }
            },
        }
    } else {
        proof {
            assert(all.skip(all.len() as int) =~= Seq::<LawSpecification>::empty());
            lemma_count_targets_empty_applies(store.entities@);
        }
    }
    let decay_targets = if decay_index < specs.laws.len() {
        match &specs.laws[decay_index] {
            LawSpecification::Decay(decay_law) => decay_law.applies_to.len(),
            LawSpecification::Resonance(_) => 0,
        }
    } else {
        0
    };
    let mut resonance_active: usize = 0;
    let mut k: usize = 0;
    while k < specs.laws.len()
        invariant
            specs.laws@ == all,
            k <= all.len(),
            resonance_active <= 1,
        decreases all.len() - k,
    {
        match &specs.laws[k] {
            LawSpecification::Resonance(r_law) => {
                if r_law.threshold > 0 {
                    resonance_active = 1;
                }
            },
            LawSpecification::Decay(_) => {},
        }
        k = k + 1;
    }
    SystemStats {
        active_systems: specs.laws.len(),
        affected_entities: affected,
        law_specifications: law_summary_text(decay_targets, resonance_active),
    }
}

/// With an empty eligibility set no entity is a decay target.
proof fn lemma_count_targets_empty_applies(ents: Seq<EntityRecord>)
    ensures
        count_law_targets(ents, Seq::empty()) == 0,
    decreases ents.len(),
{
    if ents.len() > 0 {
        lemma_count_targets_empty_applies(ents.drop_last());
    }
}

/// How many entities the given eligibility set governs.
fn count_decay_targets(store: &EntityStore, applies: &Vec<String>) -> (n: usize)
    ensures
        n == count_law_targets(store.entities@, applies@),
{
    let ghost all = store.entities@;
    proof {
        lemma_count_law_targets_le_len(all, applies@);
    }
    let mut n: usize = 0;
    let len = store.entities.len();
    for i in 0..len
        invariant
            store.entities@ == all,
            len == all.len(),
            n == count_law_targets(all.take(i as int), applies@),
            n <= i,
    {
        proof {
            assert(all.take(i + 1).drop_last() =~= all.take(i as int));
            assert(all.take(i + 1).last() == all[i as int]);
        }
        let e = &store.entities[i];
        if e.entity_type.is_some() && e.decay.is_some() {
            if contains_tag(applies, &e.entity_type.as_ref().unwrap().0) {
                n = n + 1;
            }
        }
    }
    proof {
        assert(all.take(len as int) =~= all);
    }
    n
}

/// Count of entities carrying one classifier tag.
#[derive(Debug, Clone)]
pub struct TypeCount {
    pub entity_type: String,
    pub count: usize,
}

/// Count of entities carrying one component.
#[derive(Debug, Clone)]
pub struct ComponentStat {
    pub component_name: String,
    pub count: usize,
}

/// How many of `ents` carry the classifier tag `tag`.
pub open spec fn count_tag(ents: Seq<EntityRecord>, tag: Seq<char>) -> int
    decreases ents.len(),
{
    if ents.len() == 0 {
        0
    } else {
        count_tag(ents.drop_last(), tag)
            + if ents.last().entity_type is Some && ents.last().entity_type.unwrap().0@ == tag {
                1int
            } else {
                0int
            }
    }
}

pub proof fn lemma_count_tag_le_len(ents: Seq<EntityRecord>, tag: Seq<char>)
    ensures
        0 <= count_tag(ents, tag) <= ents.len(),
    decreases ents.len(),
{
    if ents.len() > 0 {
        lemma_count_tag_le_len(ents.drop_last(), tag);
    }
}

/// A tag no entity of `ents` carries has count zero.
proof fn lemma_count_tag_zero(ents: Seq<EntityRecord>, tag: Seq<char>)
    requires
        forall|i: int| 0 <= i < ents.len() && (#[trigger] ents[i]).entity_type is Some
            ==> ents[i].entity_type.unwrap().0@ != tag,
    ensures
        count_tag(ents, tag) == 0,
    decreases ents.len(),
{
    if ents.len() > 0 {
        assert(ents.drop_last() =~= ents.take(ents.len() - 1));
        assert(forall|i: int| 0 <= i < ents.len() - 1
            ==> ents.drop_last()[i] == ents[i]);
        lemma_count_tag_zero(ents.drop_last(), tag);
    }
}

/// Tally the entities by classifier tag: one row per distinct tag, in
/// order of first appearance, each with the exact number of entities
/// carrying it; every tag present in the store has its row.
pub fn count_entities_by_type(store: &EntityStore) -> (r: Vec<TypeCount>)
    ensures
        forall|k: int| 0 <= k < r@.len()
            ==> (#[trigger] r@[k]).count == count_tag(store.entities@, r@[k].entity_type@),
        forall|k1: int, k2: int| 0 <= k1 < k2 < r@.len()
            ==> (#[trigger] r@[k1]).entity_type@ != (#[trigger] r@[k2]).entity_type@,
        forall|i: int| 0 <= i < store.entities@.len()
                && (#[trigger] store.entities@[i]).entity_type is Some
            ==> exists|k: int| 0 <= k < r@.len()
                && (#[trigger] r@[k]).entity_type@
                    == store.entities@[i].entity_type.unwrap().0@,
{
    let ghost all = store.entities@;
    let mut counts: Vec<TypeCount> = Vec::new();
    let n = store.entities.len();
    for i in 0..n
        invariant
            store.entities@ == all,
            n == all.len(),
            forall|k: int| 0 <= k < counts@.len()
                ==> (#[trigger] counts@[k]).count == count_tag(all.take(i as int), counts@[k].entity_type@),
            forall|k: int| 0 <= k < counts@.len() ==> (#[trigger] counts@[k]).count <= i,
            forall|k1: int, k2: int| 0 <= k1 < k2 < counts@.len()
                ==> (#[trigger] counts@[k1]).entity_type@ != (#[trigger] counts@[k2]).entity_type@,
            forall|j: int| 0 <= j < i && (#[trigger] all[j]).entity_type is Some
                ==> exists|k: int| 0 <= k < counts@.len()
                    && (#[trigger] counts@[k]).entity_type@ == all[j].entity_type.unwrap().0@,
    {
        proof {
            assert(all.take(i + 1).drop_last() =~= all.take(i as int));
            assert(all.take(i + 1).last() == all[i as int]);
        }
        let has_tag = store.entities[i].entity_type.is_some();
        if has_tag {
            let ghost tag = all[i as int].entity_type.unwrap().0@;
            let mut found: bool = false;
            let mut where_at: usize = 0;
            let m = counts.len();
            let mut k: usize = 0;
            while k < m
                invariant
                    m == counts@.len(),
                    k <= m,
                    store.entities@ == all,
                    i < all.len(),
                    all[i as int].entity_type is Some,
                    tag == all[i as int].entity_type.unwrap().0@,
                    !found ==> forall|k2: int| 0 <= k2 < k
                        ==> (#[trigger] counts@[k2]).entity_type@ != tag,
                    found ==> where_at < m && counts@[where_at as int].entity_type@ == tag,
                ensures
                    m == counts@.len(),
                    found ==> where_at < m && counts@[where_at as int].entity_type@ == tag,
                    !found ==> forall|k2: int| 0 <= k2 < m
                        ==> (#[trigger] counts@[k2]).entity_type@ != tag,
                decreases m - k,
            {
                if counts[k].entity_type == store.entities[i].entity_type.as_ref().unwrap().0 {
                    found = true;
                    where_at = k;
                    break;
                }
                k = k + 1;
            }
            if found {
                let ghost before = counts@;
                let c = counts[where_at].count;
                counts[where_at].count = c + 1;
                proof {
                    assert(counts@ =~= before.update(
                        where_at as int,
                        TypeCount {
                            entity_type: before[where_at as int].entity_type,
                            count: (c + 1) as usize,
                        }));
                    assert forall|k2: int| 0 <= k2 < counts@.len()
                        implies (#[trigger] counts@[k2]).count
                            == count_tag(all.take(i as int + 1), counts@[k2].entity_type@) by {
                        assert(counts@[k2].entity_type@ == before[k2].entity_type@);
                        if k2 != where_at {
                            assert(before[k2].entity_type@ != tag);
                        }
                    }
                    assert forall|j: int| 0 <= j < i + 1
                            && (#[trigger] all[j]).entity_type is Some
                        implies exists|k2: int| 0 <= k2 < counts@.len()
                            && (#[trigger] counts@[k2]).entity_type@
                                == all[j].entity_type.unwrap().0@ by {
                        if j == i {
                            assert(counts@[where_at as int].entity_type@
                                == all[j].entity_type.unwrap().0@);
                        } else {
                            let k0 = choose|k0: int| 0 <= k0 < before.len()
                                && (#[trigger] before[k0]).entity_type@
                                    == all[j].entity_type.unwrap().0@;
                            assert(counts@[k0].entity_type@ == before[k0].entity_type@);
                        }
                    }
                }
            } else {
                proof {
                    assert forall|j: int| 0 <= j < i
                            && (#[trigger] all.take(i as int)[j]).entity_type is Some
                        implies all.take(i as int)[j].entity_type.unwrap().0@ != tag by {
                        assert(all[j] == all.take(i as int)[j]);
                        assert(all[j].entity_type is Some);
                        if all[j].entity_type.unwrap().0@ == tag {
                            let k2 = choose|k2: int| 0 <= k2 < counts@.len()
                                && (#[trigger] counts@[k2]).entity_type@
                                    == all[j].entity_type.unwrap().0@;
                            assert(counts@[k2].entity_type@ != tag);
                        }
                    }
                    lemma_count_tag_zero(all.take(i as int), tag);
                }
                let ghost before = counts@;
                let entry = TypeCount {
                    entity_type: store.entities[i].entity_type.as_ref().unwrap().0.clone(),
                    count: 1,
                };
                counts.push(entry);
                proof {
                    assert forall|j: int| 0 <= j < i + 1
                            && (#[trigger] all[j]).entity_type is Some
                        implies exists|k2: int| 0 <= k2 < counts@.len()
                            && (#[trigger] counts@[k2]).entity_type@
                                == all[j].entity_type.unwrap().0@ by {
                        if j == i {
                            assert(counts@[counts@.len() - 1].entity_type@
                                == all[j].entity_type.unwrap().0@);
                        } else {
                            let k0 = choose|k0: int| 0 <= k0 < before.len()
                                && (#[trigger] before[k0]).entity_type@
                                    == all[j].entity_type.unwrap().0@;
                            assert(counts@[k0].entity_type@ == before[k0].entity_type@);
                        }
                    }
                }
            }
        }
    }
    proof {
        assert(all.take(n as int) =~= all);
    }
    counts
}

} // verus!
