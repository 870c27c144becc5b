//! The law execution engine: applies every law matching a trigger to every
//! eligible entity, mutating decay state in place.
//!
//! Laws matching one trigger run strictly in declaration order (decay
//! before resonance); the ordering is load-bearing, since resonance reads
//! the strength already decayed earlier in the same tick.

use vstd::prelude::*;
use vstd::arithmetic::div_mod::{lemma_div_pos_is_pos, lemma_multiply_divide_le};
use vstd::arithmetic::mul::{lemma_mul_nonnegative, lemma_mul_upper_bound};
use crate::components::{DecayComponent, STRENGTH_CAP, STRENGTH_SCALE};
use crate::decay_math::{half_pow, lemma_half_pow_bounds, spec_half_pow};
use crate::store::{tag_in, contains_tag, EntityRecord, EntityStore};
use crate::systems::{DecayLawSpec, LawSpecification, LawSpecifications, LawTrigger, ResonanceLawSpec};

verus! {

/// Strength after the decay formula and its floor constraint:
/// `max(min_strength, strength * 0.5^(elapsed / half_life))`, in millionths.
pub open spec fn spec_decayed_strength(d: DecayComponent, min_strength: u64, now: u64) -> int
    recommends
        d.wf(),
        now > d.last_update,
{
    let f = spec_half_pow(now - d.last_update, d.half_life as int);
    let decayed = (d.strength * f) / (STRENGTH_SCALE as int);
    if decayed < min_strength {
        min_strength as int
    } else {
        decayed
    }
}

pub proof fn lemma_decayed_strength_bounds(d: DecayComponent, min_strength: u64, now: u64)
    requires
        d.wf(),
        min_strength <= STRENGTH_CAP,
        now >= d.last_update,
    ensures
        min_strength <= spec_decayed_strength(d, min_strength, now) <= STRENGTH_CAP,
        spec_decayed_strength(d, min_strength, now)
            <= (d.strength * spec_half_pow(now - d.last_update, d.half_life as int))
                / (STRENGTH_SCALE as int)
            || spec_decayed_strength(d, min_strength, now) == min_strength,
{
    let f = spec_half_pow(now - d.last_update, d.half_life as int);
    lemma_half_pow_bounds(now - d.last_update, d.half_life as int);
    lemma_mul_nonnegative(d.strength as int, f);
    lemma_mul_upper_bound(d.strength as int, STRENGTH_CAP as int, f, STRENGTH_SCALE as int);
    lemma_div_pos_is_pos(d.strength * f, STRENGTH_SCALE as int);
    lemma_multiply_divide_le(d.strength * f, STRENGTH_SCALE as int, STRENGTH_CAP as int);
}

/// Decay state after one application of the decay law at time `now`:
/// untouched when no time has passed (so observing the same instant twice
/// in a tick is a no-op), otherwise attenuated, clamped at the floor, and
/// stamped with `now`.
pub open spec fn spec_decay_dc(d: DecayComponent, min_strength: u64, now: u64) -> DecayComponent
    recommends
        d.wf(),
{
    if now <= d.last_update {
        d
    } else {
        DecayComponent {
            strength: spec_decayed_strength(d, min_strength, now) as u64,
            half_life: d.half_life,
            last_update: now,
        }
    }
}

/// One application of the decay law to a single decay component.
pub fn decay_component_after(d: &DecayComponent, min_strength: u64, now: u64) -> (r: DecayComponent)
    requires
        d.wf(),
        min_strength <= STRENGTH_CAP,
    ensures
        r == spec_decay_dc(*d, min_strength, now),
        r.wf(),
        r.last_update >= d.last_update,
{
    if now <= d.last_update {
        *d
    } else {
        let elapsed = now - d.last_update;
        let f = half_pow(elapsed, d.half_life);
        proof {
            lemma_mul_upper_bound(
                d.strength as int, STRENGTH_CAP as int, f as int, STRENGTH_SCALE as int);
            lemma_decayed_strength_bounds(*d, min_strength, now);
        }
        let wide: u128 = (d.strength as u128) * (f as u128);
        let decayed_wide: u128 = wide / (STRENGTH_SCALE as u128);
        proof {
            lemma_div_pos_is_pos(wide as int, STRENGTH_SCALE as int);
            lemma_multiply_divide_le(wide as int, STRENGTH_SCALE as int, STRENGTH_CAP as int);
        }
        let decayed: u64 = decayed_wide as u64;
        let strength = if decayed < min_strength {
            min_strength
        } else {
            decayed
        };
        DecayComponent { strength, half_life: d.half_life, last_update: now }
    }
}

/// Strength after the resonance formula, in millionths:
/// `min(strength * multiplier, max_strength)`.
pub open spec fn spec_amplified_strength(d: DecayComponent, multiplier: u64, max_strength: u64) -> int {
    let amplified = (d.strength * multiplier) / (STRENGTH_SCALE as int);
    if amplified > max_strength {
        max_strength as int
    } else {
        amplified
    }
}

/// Decay state after one application of the resonance law: entities at or
/// below the threshold are untouched; those above it are amplified and
/// capped.
pub open spec fn spec_resonance_dc(
    d: DecayComponent,
    threshold: u64,
    multiplier: u64,
    max_strength: u64,
) -> DecayComponent
    recommends
        d.wf(),
{
    if d.strength > threshold {
        DecayComponent {
            strength: spec_amplified_strength(d, multiplier, max_strength) as u64,
            half_life: d.half_life,
            last_update: d.last_update,
        }
    } else {
        d
    }
}

pub proof fn lemma_amplified_strength_bounds(d: DecayComponent, multiplier: u64, max_strength: u64)
    requires
        d.wf(),
        multiplier <= 10 * STRENGTH_SCALE,
        max_strength <= STRENGTH_CAP,
    ensures
        0 <= spec_amplified_strength(d, multiplier, max_strength) <= max_strength,
{
    lemma_mul_nonnegative(d.strength as int, multiplier as int);
    lemma_mul_upper_bound(
        d.strength as int, STRENGTH_CAP as int, multiplier as int, 10 * STRENGTH_SCALE as int);
    lemma_div_pos_is_pos(d.strength * multiplier, STRENGTH_SCALE as int);
    lemma_multiply_divide_le(
        d.strength * multiplier, STRENGTH_SCALE as int, 10 * STRENGTH_CAP as int);
}

/// One application of the resonance law to a single decay component.
pub fn resonance_component_after(
    d: &DecayComponent,
    threshold: u64,
    multiplier: u64,
    max_strength: u64,
) -> (r: DecayComponent)
    requires
        d.wf(),
        multiplier <= 10 * STRENGTH_SCALE,
        max_strength <= STRENGTH_CAP,
    ensures
        r == spec_resonance_dc(*d, threshold, multiplier, max_strength),
        r.wf(),
        r.strength <= max_strength || r == *d,
{
    if d.strength > threshold {
        proof {
            lemma_amplified_strength_bounds(*d, multiplier, max_strength);
            lemma_mul_upper_bound(
                d.strength as int, STRENGTH_CAP as int, multiplier as int,
                10 * STRENGTH_SCALE as int);
        }
        let wide: u128 = (d.strength as u128) * (multiplier as u128);
        let amplified_wide: u128 = wide / (STRENGTH_SCALE as u128);
        proof {
            lemma_div_pos_is_pos(wide as int, STRENGTH_SCALE as int);
            lemma_multiply_divide_le(wide as int, STRENGTH_SCALE as int, 10 * STRENGTH_CAP as int);
        }
        let amplified: u64 = amplified_wide as u64;
        let strength = if amplified > max_strength {
            max_strength
        } else {
            amplified
        };
        DecayComponent { strength, half_life: d.half_life, last_update: d.last_update }
    } else {
        *d
    }
}

/// A record with its decay state replaced and every other component kept.
pub open spec fn with_decay(e: EntityRecord, d: DecayComponent) -> EntityRecord {
    EntityRecord {
        moment: e.moment,
        thread: e.thread,
        filament: e.filament,
        motif: e.motif,
        bond: e.bond,
        binding: e.binding,
        entity_type: e.entity_type,
        display_text: e.display_text,
        thread_type: e.thread_type,
        thread_name: e.thread_name,
        thread_id: e.thread_id,
        decay: Some(d),
    }
}

/// Eligibility: the entity carries a classifier tag and decay state, and
/// its tag is in the law's `applies_to` set.
pub open spec fn law_applies(e: EntityRecord, applies_to: Seq<String>) -> bool {
    &&& e.entity_type is Some
    &&& e.decay is Some
    &&& tag_in(applies_to, e.entity_type.unwrap().0@)
}

/// An entity after the decay law: only the decay state of eligible
/// entities changes.
pub open spec fn entity_after_decay(
    e: EntityRecord,
    applies_to: Seq<String>,
    min_strength: u64,
    now: u64,
) -> EntityRecord {
    if law_applies(e, applies_to) {
        with_decay(e, spec_decay_dc(e.decay.unwrap(), min_strength, now))
    } else {
        e
    }
}

/// An entity after the resonance law.
pub open spec fn entity_after_resonance(
    e: EntityRecord,
    applies_to: Seq<String>,
    threshold: u64,
    multiplier: u64,
    max_strength: u64,
) -> EntityRecord {
    if law_applies(e, applies_to) {
        with_decay(e, spec_resonance_dc(e.decay.unwrap(), threshold, multiplier, max_strength))
    } else {
        e
    }
}

/// A whole store's entities after one law application.
pub open spec fn spec_apply_law(
    law: LawSpecification,
    ents: Seq<EntityRecord>,
    now: u64,
) -> Seq<EntityRecord> {
    match law {
        LawSpecification::Decay(d) => ents.map_values(
            |e: EntityRecord| entity_after_decay(e, d.applies_to@, d.min_strength, now)),
        LawSpecification::Resonance(r) => ents.map_values(
            |e: EntityRecord| entity_after_resonance(
                e, r.applies_to@, r.threshold, r.multiplier, r.max_strength)),
    }
}

/// Apply the decay law to every eligible entity in the store. Never
/// creates or deletes entities; ineligible entities are bit-for-bit
/// untouched.
pub fn apply_decay_physics(store: &mut EntityStore, law: &DecayLawSpec, now: u64)
    requires
        old(store).wf(),
        law.wf(),
    ensures
        final(store).entities@ == spec_apply_law(LawSpecification::Decay(*law), old(store).entities@, now),
        final(store).wf(),
{
    let ghost orig = store.entities@;
    let n = store.entities.len();
    for i in 0..n
        invariant
            n == orig.len(),
            store.entities@.len() == orig.len(),
            law.wf(),
            forall|j: int| 0 <= j < orig.len() ==> (#[trigger] orig[j]).wf(),
            forall|j: int| 0 <= j < i ==> (#[trigger] store.entities@[j])
                == entity_after_decay(orig[j], law.applies_to@, law.min_strength, now),
            forall|j: int| 0 <= j < i ==> (#[trigger] store.entities@[j]).wf(),
            forall|j: int| i <= j < orig.len() ==> (#[trigger] store.entities@[j]) == orig[j],
    {
        let has_components = store.entities[i].entity_type.is_some()
            && store.entities[i].decay.is_some();
        if has_components {
            let matches_tag = contains_tag(
                &law.applies_to,
                &store.entities[i].entity_type.as_ref().unwrap().0,
            );
            if matches_tag {
                let d = store.entities[i].decay.unwrap();
                let nd = decay_component_after(&d, law.min_strength, now);
                store.entities[i].decay = Some(nd);
            }
        }
        assert(store.entities@[i as int]
            == entity_after_decay(orig[i as int], law.applies_to@, law.min_strength, now));
    }
    proof {
        assert(store.entities@ =~= spec_apply_law(
            LawSpecification::Decay(*law), orig, now));
    }
}

/// Apply the resonance law to every eligible entity above the threshold.
pub fn apply_resonance_physics(store: &mut EntityStore, law: &ResonanceLawSpec, now: u64)
    requires
        old(store).wf(),
        law.wf(),
    ensures
        final(store).entities@ == spec_apply_law(LawSpecification::Resonance(*law), old(store).entities@, now),
        final(store).wf(),
{
    let ghost orig = store.entities@;
    let n = store.entities.len();
    for i in 0..n
        invariant
            n == orig.len(),
            store.entities@.len() == orig.len(),
            law.wf(),
            forall|j: int| 0 <= j < orig.len() ==> (#[trigger] orig[j]).wf(),
            forall|j: int| 0 <= j < i ==> (#[trigger] store.entities@[j])
                == entity_after_resonance(
                    orig[j], law.applies_to@, law.threshold, law.multiplier, law.max_strength),
            forall|j: int| 0 <= j < i ==> (#[trigger] store.entities@[j]).wf(),
            forall|j: int| i <= j < orig.len() ==> (#[trigger] store.entities@[j]) == orig[j],
    {
        let has_components = store.entities[i].entity_type.is_some()
            && store.entities[i].decay.is_some();
        if has_components {
            let matches_tag = contains_tag(
                &law.applies_to,
                &store.entities[i].entity_type.as_ref().unwrap().0,
            );
            if matches_tag {
                let d = store.entities[i].decay.unwrap();
                let nd = resonance_component_after(
                    &d, law.threshold, law.multiplier, law.max_strength);
                store.entities[i].decay = Some(nd);
            }
        }
        assert(store.entities@[i as int] == entity_after_resonance(
            orig[i as int], law.applies_to@, law.threshold, law.multiplier, law.max_strength));
    }
    proof {
        assert(store.entities@ =~= spec_apply_law(
            LawSpecification::Resonance(*law), orig, now));
    }
}

/// Dispatch one law by its kind; the variant set is closed, so there is no
/// unknown-law case to fall through.
pub fn execute_physics_law(store: &mut EntityStore, law: &LawSpecification, now: u64)
    requires
        old(store).wf(),
        law.wf(),
    ensures
        final(store).entities@ == spec_apply_law(*law, old(store).entities@, now),
        final(store).wf(),
{
    match law {
        LawSpecification::Decay(d) => apply_decay_physics(store, d, now),
        LawSpecification::Resonance(r) => apply_resonance_physics(store, r, now),
    }
}

/// A whole store's entities after all laws of `laws` matching `trigger`
/// have run, in declaration order.
pub open spec fn spec_execute_laws(
    laws: Seq<LawSpecification>,
    trigger: LawTrigger,
    ents: Seq<EntityRecord>,
    now: u64,
) -> Seq<EntityRecord>
    decreases laws.len(),
{
    if laws.len() == 0 {
        ents
    } else {
        let after_first = if laws.first().trigger_of() == trigger {
            spec_apply_law(laws.first(), ents, now)
        } else {
            ents
        };
        spec_execute_laws(laws.drop_first(), trigger, after_first, now)
    }
}

/// Execute every law matching `trigger` against the store, in declaration
/// order. Mutates decay state only; never creates or deletes entities.
pub fn execute_laws(
    store: &mut EntityStore,
    specs: &LawSpecifications,
    trigger: LawTrigger,
    now: u64,
)
    requires
        old(store).wf(),
        specs.wf(),
    ensures
        final(store).entities@ == spec_execute_laws(specs.laws@, trigger, old(store).entities@, now),
        final(store).wf(),
{
    let ghost orig = store.entities@;
    let ghost all = specs.laws@;
    proof {
        assert(all.skip(0) =~= all);
    }
    let n = specs.laws.len();
    for i in 0..n
        invariant
            n == all.len(),
            specs.laws@ == all,
            specs.wf(),
            store.wf(),
            spec_execute_laws(all.skip(i as int), trigger, store.entities@, now)
                == spec_execute_laws(all, trigger, orig, now),
        decreases n - i,
    {
        let ghost before = store.entities@;
        proof {
            assert(all.skip(i as int).len() > 0);
            assert(all.skip(i as int).first() == all[i as int]);
            assert(all.skip(i as int).drop_first() =~= all.skip(i as int + 1));
        }
        let law = &specs.laws[i];
        if law.trigger() == trigger {
            execute_physics_law(store, law, now);
        }
        proof {
            assert(spec_execute_laws(all.skip(i as int), trigger, before, now)
                == spec_execute_laws(all.skip(i as int + 1), trigger, store.entities@, now));
        }
    }
    proof {
        assert(all.skip(n as int) =~= Seq::<LawSpecification>::empty());
        assert(spec_execute_laws(all.skip(n as int), trigger, store.entities@, now)
            == store.entities@);
    }
}

/// Run all physics laws for one tick.
pub fn run_physics_systems(store: &mut EntityStore, specs: &LawSpecifications, now: u64)
    requires
        old(store).wf(),
        specs.wf(),
    ensures
        final(store).entities@ == spec_execute_laws(
            specs.laws@, LawTrigger::OnTick, old(store).entities@, now),
        final(store).wf(),
{
    execute_laws(store, specs, LawTrigger::OnTick, now);
}

} // verus!
