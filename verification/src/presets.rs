//! Engine presets: their names, descriptions and lookup by name.
//!
//! The floating-point settings of each preset are assembled by the caller; this module
//! holds the preset catalogue itself.

use vstd::prelude::*;

verus! {

/// Opinionated engine presets covering distinct operating modes.
#[derive(Clone, Copy, Debug, PartialEq, Eq, Hash, Structural)]
pub enum Preset {
    LegacyBaseline,
    Balanced,
    Conservative,
    Throughput,
}

/// The name of a preset, as a spec value.
pub open spec fn preset_name(p: Preset) -> Seq<char> {
    match p {
        Preset::LegacyBaseline => "legacy_baseline"@,
        Preset::Balanced => "balanced"@,
        Preset::Conservative => "conservative"@,
        Preset::Throughput => "throughput"@,
    }
}

impl Preset {
    /// All presets, in catalogue order.
    pub const ALL: [Preset; 4] = [Preset::LegacyBaseline, Preset::Balanced, Preset::Conservative, Preset::Throughput];

    /// The preset's name.
    pub fn name(self) -> (r: &'static str)
        ensures
            r@ == preset_name(self),
    {
        match self {
            Preset::LegacyBaseline => "legacy_baseline",
            Preset::Balanced => "balanced",
            Preset::Conservative => "conservative",
            Preset::Throughput => "throughput",
        }
    }

    /// A one-line description of the preset.
    pub fn description(self) -> (r: &'static str)
        ensures
            r@ == match self {
                Preset::LegacyBaseline => "Approximate pre-upgrade5 behavior; useful as a before-comparison baseline."@,
                Preset::Balanced => "Recommended default: near-throughput solution quality with moderate partial budget and moderately aggressive objective pruning."@,
                Preset::Conservative => "Minimize false infeasible risk; slower adaptation, more cautious K updates, and delayed objective pruning."@,
                Preset::Throughput => "Favor candidate throughput and faster adaptation for quick sweeps, including earlier objective pruning."@,
            },
    {
        match self {
            Preset::LegacyBaseline => {
                "Approximate pre-upgrade5 behavior; useful as a before-comparison baseline."
            },
            Preset::Balanced => {
                "Recommended default: near-throughput solution quality with moderate partial budget and moderately aggressive objective pruning."
            },
            Preset::Conservative => {
                "Minimize false infeasible risk; slower adaptation, more cautious K updates, and delayed objective pruning."
            },
            Preset::Throughput => {
                "Favor candidate throughput and faster adaptation for quick sweeps, including earlier objective pruning."
            },
        }
    }
}

/// The preset with name `s`, if any.
pub open spec fn preset_lookup(s: Seq<char>) -> Option<Preset> {
    if s == preset_name(Preset::LegacyBaseline) {
        Some(Preset::LegacyBaseline)
    } else if s == preset_name(Preset::Balanced) {
        Some(Preset::Balanced)
    } else if s == preset_name(Preset::Conservative) {
        Some(Preset::Conservative)
    } else if s == preset_name(Preset::Throughput) {
        Some(Preset::Throughput)
    } else {
        None
    }
}

/// Look a preset up by its name; `None` for any other string.
pub fn preset_from_str(name: &str) -> (r: Option<Preset>)
    ensures
        r == preset_lookup(name@),
{
    let s: String = name.to_owned();
    if s == "legacy_baseline".to_owned() {
        Some(Preset::LegacyBaseline)
    } else if s == "balanced".to_owned() {
        Some(Preset::Balanced)
    } else if s == "conservative".to_owned() {
        Some(Preset::Conservative)
    } else if s == "throughput".to_owned() {
        Some(Preset::Throughput)
    } else {
        None
    }
}

/// Preset names are pairwise distinct, and looking a preset up by its own name finds it.
pub proof fn lemma_preset_names_round_trip(p: Preset, q: Preset)
    ensures
        p != q ==> preset_name(p) != preset_name(q),
        preset_lookup(preset_name(p)) == Some(p),
{
    reveal_strlit("legacy_baseline");
    reveal_strlit("balanced");
    reveal_strlit("conservative");
    reveal_strlit("throughput");
    assert forall|a: Preset, b: Preset| a != b implies preset_name(a) != preset_name(b) by {
        if preset_name(a).len() == preset_name(b).len() {
            assert(preset_name(a)[0] != preset_name(b)[0]);
        }
    }
}

} // verus!
