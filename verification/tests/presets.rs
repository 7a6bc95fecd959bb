use imads::presets::{preset_from_str, Preset};

// Each preset's settings include floating-point fields, so their validation runs in
// app/ beside the float configuration; here the presets are checked to be distinct.
#[test]
fn presets_validate_and_are_distinct() {
    assert_eq!(Preset::ALL.len(), 4);
    let names: Vec<_> = Preset::ALL.iter().map(|p| p.name()).collect();
    let mut sorted = names.clone();
    sorted.sort();
    sorted.dedup();
    assert_eq!(sorted.len(), names.len());
}

#[test]
fn preset_names_round_trip() {
    for p in Preset::ALL {
        assert_eq!(preset_from_str(p.name()), Some(p));
    }
    assert_eq!(preset_from_str("balanced"), Some(Preset::Balanced));
    assert_eq!(preset_from_str("Balanced"), None);
    assert_eq!(preset_from_str(""), None);
}

#[test]
fn preset_names_and_descriptions() {
    assert_eq!(Preset::LegacyBaseline.name(), "legacy_baseline");
    assert_eq!(Preset::Throughput.name(), "throughput");
    assert_eq!(Preset::Conservative.name(), "conservative");
    assert!(Preset::Balanced.description().starts_with("Recommended default"));
    assert!(Preset::LegacyBaseline.description().contains("baseline"));
}
