use familiar_hot_path::components::DecayComponent;
use familiar_hot_path::decay_math::half_pow;
use familiar_hot_path::law_executor::{decay_component_after, resonance_component_after};

#[test]
fn half_pow_no_elapsed_is_one() {
    assert_eq!(half_pow(0, 300), 1_000_000);
    assert_eq!(half_pow(0, 1), 1_000_000);
}

#[test]
fn half_pow_exact_at_whole_half_lives() {
    assert_eq!(half_pow(300, 300), 500_000);
    assert_eq!(half_pow(600, 300), 250_000);
    assert_eq!(half_pow(900, 300), 125_000);
    assert_eq!(half_pow(45, 45), 500_000);
}

#[test]
fn half_pow_interpolates_between_halvings() {
    // Halfway to the first halving: midway between 1.0 and 0.5.
    assert_eq!(half_pow(150, 300), 750_000);
}

#[test]
fn half_pow_vanishes_after_many_half_lives() {
    assert_eq!(half_pow(300 * 40, 300), 0);
    assert_eq!(half_pow(u64::MAX, 1), 0);
}

#[test]
fn decay_halves_strength_after_one_half_life() {
    // strength 1.0, half-life 300 s; after 300 s expect 0.5 exactly and
    // the update stamp advanced by 300 s.
    let d = DecayComponent { strength: 1_000_000, half_life: 300, last_update: 0 };
    let d1 = decay_component_after(&d, 100_000, 300);
    assert_eq!(d1.strength, 500_000);
    assert_eq!(d1.last_update, 300);
    assert_eq!(d1.half_life, 300);
    // A further 300 s: expect 0.25.
    let d2 = decay_component_after(&d1, 100_000, 600);
    assert_eq!(d2.strength, 250_000);
    assert_eq!(d2.last_update, 600);
}

#[test]
fn decay_never_reads_below_floor() {
    let d = DecayComponent { strength: 1_000_000, half_life: 300, last_update: 0 };
    // After a very long time the strength sits exactly on the floor 0.1.
    let late = decay_component_after(&d, 100_000, 3_000_000);
    assert_eq!(late.strength, 100_000);
}

#[test]
fn decay_without_elapsed_time_is_a_no_op() {
    let d = DecayComponent { strength: 700_000, half_life: 60, last_update: 500 };
    // Same instant: untouched, update stamp kept.
    let same = decay_component_after(&d, 100_000, 500);
    assert_eq!(same, d);
    // An earlier instant is equally a no-op.
    let earlier = decay_component_after(&d, 100_000, 400);
    assert_eq!(earlier, d);
}

#[test]
fn decay_twice_at_one_instant_leaves_strength_unchanged() {
    let d = DecayComponent { strength: 900_000, half_life: 120, last_update: 0 };
    let once = decay_component_after(&d, 100_000, 60);
    let twice = decay_component_after(&once, 100_000, 60);
    assert_eq!(twice, once);
}

#[test]
fn decay_is_monotone_on_an_odd_elapsed_time() {
    let d = DecayComponent { strength: 700_000, half_life: 100, last_update: 0 };
    let after = decay_component_after(&d, 100_000, 37);
    assert!(after.strength <= 700_000);
    assert!(after.strength >= 100_000);
}

#[test]
fn resonance_clamps_at_max_strength() {
    // strength 0.9, threshold 0.85, multiplier 1.2, max 1.0: expect 1.0
    // (clamped, not 1.08).
    let d = DecayComponent { strength: 900_000, half_life: 300, last_update: 0 };
    let r = resonance_component_after(&d, 850_000, 1_200_000, 1_000_000);
    assert_eq!(r.strength, 1_000_000);
    assert_eq!(r.half_life, 300);
    assert_eq!(r.last_update, 0);
}

#[test]
fn resonance_amplifies_exactly_below_the_cap() {
    let d = DecayComponent { strength: 600_000, half_life: 300, last_update: 0 };
    let r = resonance_component_after(&d, 500_000, 1_200_000, 1_000_000);
    assert_eq!(r.strength, 720_000);
}

#[test]
fn resonance_leaves_entities_at_or_below_threshold_untouched() {
    let at = DecayComponent { strength: 850_000, half_life: 300, last_update: 7 };
    assert_eq!(resonance_component_after(&at, 850_000, 1_200_000, 1_000_000), at);
    let below = DecayComponent { strength: 200_000, half_life: 45, last_update: 3 };
    assert_eq!(resonance_component_after(&below, 850_000, 1_200_000, 1_000_000), below);
}
