//! Laws of the rule engine, stated and proved once and for all inputs:
//! decay only lowers strength (down to its floor), decay is a no-op when no
//! time has passed, resonance never exceeds its ceiling, resonance leaves
//! entities at or below its threshold untouched, and decay run first in a
//! tick cannot arm the resonance gate.

use vstd::prelude::*;
use vstd::arithmetic::div_mod::{lemma_div_by_multiple, lemma_div_is_ordered, lemma_div_pos_is_pos};
use vstd::arithmetic::mul::lemma_mul_nonnegative;
use crate::components::{DecayComponent, STRENGTH_CAP, STRENGTH_SCALE};
use crate::decay_math::{lemma_half_pow_bounds, lemma_half_pow_exact, pow_half, spec_half_pow};
use crate::law_executor::{
    entity_after_decay, entity_after_resonance, lemma_amplified_strength_bounds,
    lemma_decayed_strength_bounds, spec_decay_dc, spec_resonance_dc,
};
use crate::store::EntityRecord;

verus! {

/// Decay, applied over a positive elapsed time to a strength at or above
/// the configured floor, never raises the strength, never takes it below
/// the floor, and advances the update stamp to `now`.
pub proof fn lemma_decay_monotone(d: DecayComponent, min_strength: u64, now: u64)
    requires
        d.wf(),
        min_strength <= STRENGTH_CAP,
        min_strength <= d.strength,
        now > d.last_update,
    ensures
        spec_decay_dc(d, min_strength, now).strength <= d.strength,
        spec_decay_dc(d, min_strength, now).strength >= min_strength,
        spec_decay_dc(d, min_strength, now).last_update == now,
{
    lemma_decay_no_increase_raw(d, min_strength, now);
    lemma_decayed_strength_bounds(d, min_strength, now);
}

/// The raw decayed strength (before the floor) never exceeds the old
/// strength: the attenuation factor is at most one.
proof fn lemma_decay_no_increase_raw(d: DecayComponent, min_strength: u64, now: u64)
    requires
        d.wf(),
        now > d.last_update,
    ensures
        (d.strength * spec_half_pow(now - d.last_update, d.half_life as int))
            / (STRENGTH_SCALE as int) <= d.strength,
        (d.strength * spec_half_pow(now - d.last_update, d.half_life as int))
            / (STRENGTH_SCALE as int) >= 0,
{
    let f = spec_half_pow(now - d.last_update, d.half_life as int);
    lemma_half_pow_bounds(now - d.last_update, d.half_life as int);
    let s = d.strength as int;
    lemma_mul_nonnegative(s, f);
    assert(s * f <= s * STRENGTH_SCALE) by (nonlinear_arith)
        requires
            0 <= s,
            0 <= f <= STRENGTH_SCALE;
    lemma_div_is_ordered(s * f, s * STRENGTH_SCALE, STRENGTH_SCALE as int);
    lemma_div_by_multiple(s, STRENGTH_SCALE as int);
    lemma_div_pos_is_pos(s * f, STRENGTH_SCALE as int);
}

/// At a whole number of elapsed half-lives the decay formula is exact:
/// the strength is the old strength halved once per half-life (to fixed
/// point precision), raised to the floor if it fell below it.
pub proof fn lemma_decay_exact_at_whole_half_lives(
    d: DecayComponent,
    min_strength: u64,
    k: nat,
    now: u64,
)
    requires
        d.wf(),
        min_strength <= STRENGTH_CAP,
        k >= 1,
        now == d.last_update + k * d.half_life,
    ensures
        ({
            let halved = (d.strength * pow_half(k)) / (STRENGTH_SCALE as int);
            spec_decay_dc(d, min_strength, now).strength
                == if halved < min_strength { min_strength as int } else { halved }
        }),
{
    assert(k * d.half_life >= 1) by (nonlinear_arith)
        requires k >= 1 && d.half_life >= 1;
    assert(now - d.last_update == k * (d.half_life as int));
    lemma_half_pow_exact(k, d.half_life as int);
    lemma_decayed_strength_bounds(d, min_strength, now);
}

/// Applying decay twice at one instant changes nothing the second time:
/// the first application stamps `last_update = now`, so the second sees no
/// elapsed time.
pub proof fn lemma_decay_idempotent_at_same_instant(d: DecayComponent, min_strength: u64, now: u64)
    ensures
        spec_decay_dc(spec_decay_dc(d, min_strength, now), min_strength, now)
            == spec_decay_dc(d, min_strength, now),
{
}

/// After resonance the strength never exceeds the law's ceiling, as long
/// as the threshold itself sits at or below the ceiling (as it does in the
/// shipped law catalog).
pub proof fn lemma_resonance_ceiling(d: DecayComponent, threshold: u64, multiplier: u64, max_strength: u64)
    requires
        d.wf(),
        multiplier <= 10 * STRENGTH_SCALE,
        max_strength <= STRENGTH_CAP,
        threshold <= max_strength,
    ensures
        spec_resonance_dc(d, threshold, multiplier, max_strength).strength <= max_strength,
{
    if d.strength > threshold {
        lemma_amplified_strength_bounds(d, multiplier, max_strength);
    }
}

/// Resonance leaves a component at or below the threshold untouched.
pub proof fn lemma_resonance_gate(d: DecayComponent, threshold: u64, multiplier: u64, max_strength: u64)
    requires
        d.strength <= threshold,
    ensures
        spec_resonance_dc(d, threshold, multiplier, max_strength) == d,
{
}

/// Resonance leaves a whole entity bit-for-bit unchanged when its strength
/// is at or below the threshold (or when it carries no decay state).
pub proof fn lemma_resonance_gate_entity(
    e: EntityRecord,
    applies_to: Seq<String>,
    threshold: u64,
    multiplier: u64,
    max_strength: u64,
)
    requires
        e.decay is Some ==> e.decay.unwrap().strength <= threshold,
    ensures
        entity_after_resonance(e, applies_to, threshold, multiplier, max_strength) == e,
{
}

/// Ordering dependency: decay only lowers strength, so running
/// decay-then-resonance in one tick on an entity whose pre-decay strength
/// is at or below the threshold cannot fire resonance — the decayed entity
/// passes through resonance unchanged. (The law floor must sit at or below
/// the threshold, as it does in the shipped catalog.)
pub proof fn lemma_decay_then_resonance_gate(
    e: EntityRecord,
    decay_applies_to: Seq<String>,
    resonance_applies_to: Seq<String>,
    min_strength: u64,
    threshold: u64,
    multiplier: u64,
    max_strength: u64,
    now: u64,
)
    requires
        e.wf(),
        min_strength <= STRENGTH_CAP,
        min_strength <= threshold,
        e.decay is Some ==> e.decay.unwrap().strength <= threshold,
    ensures
        entity_after_resonance(
            entity_after_decay(e, decay_applies_to, min_strength, now),
            resonance_applies_to, threshold, multiplier, max_strength)
            == entity_after_decay(e, decay_applies_to, min_strength, now),
{
    let e1 = entity_after_decay(e, decay_applies_to, min_strength, now);
    if e1.decay is Some {
        let d = e.decay.unwrap();
        if e1.decay.unwrap() != d {
            // Decay actually ran: its result is the floored attenuation.
            lemma_decay_no_increase_raw(d, min_strength, now);
            lemma_decayed_strength_bounds(d, min_strength, now);
        }
        assert(e1.decay.unwrap().strength <= threshold);
    }
    lemma_resonance_gate_entity(
        e1, resonance_applies_to, threshold, multiplier, max_strength);
}

} // verus!
