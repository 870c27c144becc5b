//! The declarative law catalog: one specification per law kind, loaded once
//! at startup from the compiled-in schema, and selected by trigger in fixed
//! declaration order (decay strictly before resonance).

use vstd::prelude::*;
use crate::components::{STRENGTH_SCALE, STRENGTH_CAP};

verus! {

/// Condition class under which a law runs.
#[derive(Debug, Clone, Copy, PartialEq, Eq, Structural)]
pub enum LawTrigger {
    OnObservation,
    OnTick,
    OnAffinityMatch,
}

/// The decay law: entities whose tag is in `applies_to` lose strength
/// exponentially with time, clamped from below at `min_strength`.
/// `formula` is a human-readable description, not executable.
#[derive(Debug, Clone)]
pub struct DecayLawSpec {
    pub formula: String,
    pub trigger: LawTrigger,
    pub applies_to: Vec<String>,
    /// Constraint floor for the strength, in millionths.
    pub min_strength: u64,
}

impl DecayLawSpec {
    /// The floor must be representable.
    pub open spec fn wf(self) -> bool {
        self.min_strength <= STRENGTH_CAP
    }
}

/// The resonance law: eligible entities already above `threshold` are
/// amplified by `multiplier`, capped at `max_strength`. All three constants
/// are in millionths.
#[derive(Debug, Clone)]
pub struct ResonanceLawSpec {
    pub formula: String,
    pub trigger: LawTrigger,
    pub applies_to: Vec<String>,
    pub threshold: u64,
    pub multiplier: u64,
    pub max_strength: u64,
}

impl ResonanceLawSpec {
    /// The multiplier stays within ten units and the cap is representable.
    pub open spec fn wf(self) -> bool {
        &&& self.multiplier <= 10 * STRENGTH_SCALE
        &&& self.max_strength <= STRENGTH_CAP
    }
}

/// A law descriptor: a closed set of variants, one per law kind, each
/// carrying its own typed constants, so that dispatch is an exhaustive
/// match and an unknown law name cannot arise.
#[derive(Debug, Clone)]
pub enum LawSpecification {
    Decay(DecayLawSpec),
    Resonance(ResonanceLawSpec),
}

impl LawSpecification {
    pub open spec fn trigger_of(self) -> LawTrigger {
        match self {
            LawSpecification::Decay(d) => d.trigger,
            LawSpecification::Resonance(r) => r.trigger,
        }
    }

    pub open spec fn wf(self) -> bool {
        match self {
            LawSpecification::Decay(d) => d.wf(),
            LawSpecification::Resonance(r) => r.wf(),
        }
    }

    /// The trigger, readable at run time.
    pub fn trigger(&self) -> (t: LawTrigger)
        ensures
            t == self.trigger_of(),
    {
        match self {
            LawSpecification::Decay(d) => d.trigger,
            LawSpecification::Resonance(r) => r.trigger,
        }
    }
}

/// The laws of `laws` whose trigger is `t`, in declaration order.
pub open spec fn matching_laws(laws: Seq<LawSpecification>, t: LawTrigger) -> Seq<LawSpecification>
    decreases laws.len(),
{
    if laws.len() == 0 {
        Seq::empty()
    } else {
        let rest = matching_laws(laws.drop_last(), t);
        if laws.last().trigger_of() == t {
            rest.push(laws.last())
        } else {
            rest
        }
    }
}

/// The immutable catalog of law specifications, fixed for the process
/// lifetime.
#[derive(Debug, Clone)]
pub struct LawSpecifications {
    pub laws: Vec<LawSpecification>,
}

impl LawSpecifications {
    pub open spec fn wf(self) -> bool {
        forall|i: int| 0 <= i < self.laws@.len() ==> (#[trigger] self.laws@[i]).wf()
    }

    /// Load the law specifications from the compiled-in schema: the decay
    /// law first (filaments, motifs and moments; floor one tenth), then the
    /// resonance law (filaments; threshold 0.85, multiplier 1.2, cap 1.0),
    /// both on the tick trigger.
    pub fn from_schema() -> (specs: LawSpecifications)
        ensures
            specs.wf(),
            specs.laws@.len() == 2,
            specs.laws@[0] matches LawSpecification::Decay(d) && {
                &&& d.formula@ == "strength = strength * pow(0.5, time_elapsed / half_life)"@
                &&& d.trigger == LawTrigger::OnTick
                &&& d.applies_to@.len() == 3
                &&& d.applies_to@[0]@ == "filament"@
                &&& d.applies_to@[1]@ == "motif"@
                &&& d.applies_to@[2]@ == "moment"@
                &&& d.min_strength == STRENGTH_SCALE / 10
            },
            specs.laws@[1] matches LawSpecification::Resonance(r) && {
                &&& r.formula@ == "strength = min(strength * multiplier, max_strength) if strength > threshold else strength"@
                &&& r.trigger == LawTrigger::OnTick
                &&& r.applies_to@.len() == 1
                &&& r.applies_to@[0]@ == "filament"@
                &&& r.threshold == 850_000
                &&& r.multiplier == 1_200_000
                &&& r.max_strength == STRENGTH_SCALE
            },
    {
        let mut decay_targets: Vec<String> = Vec::new();
        decay_targets.push("filament".to_owned());
        decay_targets.push("motif".to_owned());
        decay_targets.push("moment".to_owned());
        let decay_law = DecayLawSpec {
            formula: "strength = strength * pow(0.5, time_elapsed / half_life)".to_owned(),
            trigger: LawTrigger::OnTick,
            applies_to: decay_targets,
            min_strength: 100_000,
        };
        let mut resonance_targets: Vec<String> = Vec::new();
        resonance_targets.push("filament".to_owned());
        let resonance_law = ResonanceLawSpec {
            formula: "strength = min(strength * multiplier, max_strength) if strength > threshold else strength".to_owned(),
            trigger: LawTrigger::OnTick,
            applies_to: resonance_targets,
            threshold: 850_000,
            multiplier: 1_200_000,
            max_strength: 1_000_000,
        };
        let mut laws: Vec<LawSpecification> = Vec::new();
        laws.push(LawSpecification::Decay(decay_law));
        laws.push(LawSpecification::Resonance(resonance_law));
        LawSpecifications { laws }
    }

    /// The specifications whose trigger is `trigger`, in declaration order.
    /// An unknown trigger simply selects nothing.
    pub fn specifications_for<'a>(&'a self, trigger: LawTrigger) -> (out: Vec<&'a LawSpecification>)
        ensures
            out@.len() == matching_laws(self.laws@, trigger).len(),
            forall|j: int| 0 <= j < out@.len()
                ==> *(#[trigger] out@[j]) == matching_laws(self.laws@, trigger)[j],
    {
        let ghost all = self.laws@;
        let mut out: Vec<&'a LawSpecification> = Vec::new();
        let n = self.laws.len();
        for i in 0..n
            invariant
                n == all.len(),
                self.laws@ == all,
                out@.len() == matching_laws(all.take(i as int), trigger).len(),
                forall|j: int| 0 <= j < out@.len()
                    ==> *(#[trigger] out@[j]) == matching_laws(all.take(i as int), trigger)[j],
        {
            let law = &self.laws[i];
            proof {
                assert(all.take(i + 1).drop_last() =~= all.take(i as int));
                assert(all.take(i + 1).last() == all[i as int]);
            }
            if law.trigger() == trigger {
                out.push(law);
            }
        }
        proof {
            assert(all.take(n as int) =~= all);
        }
        out
    }
}

} // verus!
