use familiar_hot_path::config::{ConfigError, Settings};
use familiar_hot_path::registry::ComponentRegistry;
use familiar_hot_path::systems::{LawSpecification, LawSpecifications, LawTrigger};

#[test]
fn schema_declares_decay_before_resonance() {
    let specs = LawSpecifications::from_schema();
    assert_eq!(specs.laws.len(), 2);
    match &specs.laws[0] {
        LawSpecification::Decay(d) => {
            assert_eq!(d.trigger, LawTrigger::OnTick);
            assert_eq!(d.applies_to, vec!["filament", "motif", "moment"]);
            assert_eq!(d.min_strength, 100_000);
            assert_eq!(d.formula, "strength = strength * pow(0.5, time_elapsed / half_life)");
        },
        LawSpecification::Resonance(_) => panic!("decay must come first"),
    }
    match &specs.laws[1] {
        LawSpecification::Resonance(r) => {
            assert_eq!(r.trigger, LawTrigger::OnTick);
            assert_eq!(r.applies_to, vec!["filament"]);
            assert_eq!(r.threshold, 850_000);
            assert_eq!(r.multiplier, 1_200_000);
            assert_eq!(r.max_strength, 1_000_000);
        },
        LawSpecification::Decay(_) => panic!("resonance must come second"),
    }
}

#[test]
fn specifications_for_keeps_declaration_order() {
    let specs = LawSpecifications::from_schema();
    let on_tick = specs.specifications_for(LawTrigger::OnTick);
    assert_eq!(on_tick.len(), 2);
    assert!(matches!(on_tick[0], LawSpecification::Decay(_)));
    assert!(matches!(on_tick[1], LawSpecification::Resonance(_)));
}

#[test]
fn unknown_trigger_yields_an_empty_selection() {
    let specs = LawSpecifications::from_schema();
    assert_eq!(specs.specifications_for(LawTrigger::OnObservation).len(), 0);
    assert_eq!(specs.specifications_for(LawTrigger::OnAffinityMatch).len(), 0);
}

#[test]
fn component_info_for_decay_component() {
    let info = ComponentRegistry::get_component_info(&"DecayComponent".to_string()).unwrap();
    assert_eq!(info.name, "DecayComponent");
    assert_eq!(info.version, 1);
    assert_eq!(info.mixins, vec!["decayable"]);
    assert_eq!(info.laws, vec!["decay", "resonance"]);
}

#[test]
fn component_info_for_plain_components() {
    let info = ComponentRegistry::get_component_info(&"ThreadName".to_string()).unwrap();
    assert_eq!(info.name, "ThreadName");
    assert!(info.mixins.is_empty());
    assert!(info.laws.is_empty());
}

#[test]
fn unknown_component_has_no_info() {
    assert!(ComponentRegistry::get_component_info(&"Nonexistent".to_string()).is_none());
}

#[test]
fn the_catalog_lists_ten_components() {
    let names = ComponentRegistry::all_components();
    assert_eq!(names.len(), 10);
    assert_eq!(names[0], "EntityType");
    assert_eq!(names[9], "ThreadId");
    let versioned = ComponentRegistry::get_all_components();
    assert_eq!(versioned.len(), 10);
    assert!(versioned.iter().all(|(_, v)| *v == 1));
}

#[test]
fn components_governed_by_each_law() {
    assert_eq!(
        ComponentRegistry::get_components_for_law(&"decay".to_string()),
        vec!["DecayComponent", "Age"]
    );
    assert_eq!(
        ComponentRegistry::get_components_for_law(&"resonance".to_string()),
        vec!["DecayComponent"]
    );
    assert_eq!(
        ComponentRegistry::get_components_for_law(&"temporal_drift".to_string()),
        vec!["TemporalPosition"]
    );
    assert!(ComponentRegistry::get_components_for_law(&"gravity".to_string()).is_empty());
}

#[test]
fn settings_require_an_api_key() {
    let ok = Settings::new(Some("local-test-key".to_string())).unwrap();
    assert_eq!(ok.api_key, "local-test-key");
    let err = Settings::new(None).unwrap_err();
    assert!(matches!(err, ConfigError::MissingApiKey));
    assert_eq!(err.message(), "missing configuration value: api_key");
}
