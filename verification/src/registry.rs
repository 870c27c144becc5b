//! Runtime introspection over the component catalog: which components
//! exist, their schema versions and mixins, and which components each law
//! governs.

use vstd::prelude::*;

verus! {

/// Catalog entry for one component type.
#[derive(Debug, Clone)]
pub struct ComponentInfo {
    pub name: String,
    pub version: i32,
    pub mixins: Vec<String>,
    pub laws: Vec<String>,
}

/// Whether `r` describes the catalog entry with the given fields.
pub open spec fn info_matches(
    r: ComponentInfo,
    name: Seq<char>,
    version: int,
    mixins: Seq<Seq<char>>,
    laws: Seq<Seq<char>>,
) -> bool {
    &&& r.name@ == name
    &&& r.version == version
    &&& r.mixins@.len() == mixins.len()
    &&& forall|i: int| 0 <= i < mixins.len() ==> (#[trigger] r.mixins@[i])@ == mixins[i]
    &&& r.laws@.len() == laws.len()
    &&& forall|i: int| 0 <= i < laws.len() ==> (#[trigger] r.laws@[i])@ == laws[i]
}

/// The fixed component catalog.
pub struct ComponentRegistry;

impl ComponentRegistry {
    /// The catalog entry for a component name, or nothing for an unknown
    /// name.
    pub fn get_component_info(name: &String) -> (r: Option<ComponentInfo>)
        ensures
            name@ == "EntityType"@ ==> (r matches Some(info)
                && info_matches(info, "EntityType"@, 1, seq![], seq![])),
            name@ == "DisplayText"@ ==> (r matches Some(info)
                && info_matches(info, "DisplayText"@, 1, seq![], seq![])),
            name@ == "DecayComponent"@ ==> (r matches Some(info)
                && info.name@ == "DecayComponent"@ && info.version == 1
                && info.mixins@.len() == 1 && info.mixins@[0]@ == "decayable"@
                && info.laws@.len() == 2 && info.laws@[0]@ == "decay"@
                && info.laws@[1]@ == "resonance"@),
            name@ == "TemporalPosition"@ ==> (r matches Some(info)
                && info.name@ == "TemporalPosition"@ && info.version == 1
                && info.mixins@.len() == 0
                && info.laws@.len() == 1 && info.laws@[0]@ == "temporal_drift"@),
            name@ == "MemoryLayer"@ ==> (r matches Some(info)
                && info.name@ == "MemoryLayer"@ && info.version == 1
                && info.mixins@.len() == 0
                && info.laws@.len() == 1 && info.laws@[0]@ == "memory_consolidation"@),
            name@ == "Age"@ ==> (r matches Some(info)
                && info.name@ == "Age"@ && info.version == 1
                && info.mixins@.len() == 1 && info.mixins@[0]@ == "decayable"@
                && info.laws@.len() == 1 && info.laws@[0]@ == "decay"@),
            name@ == "Mood"@ ==> (r matches Some(info)
                && info_matches(info, "Mood"@, 1, seq![], seq![])),
            name@ == "ThreadType"@ ==> (r matches Some(info)
                && info_matches(info, "ThreadType"@, 1, seq![], seq![])),
            name@ == "ThreadName"@ ==> (r matches Some(info)
                && info_matches(info, "ThreadName"@, 1, seq![], seq![])),
            name@ == "ThreadId"@ ==> (r matches Some(info)
                && info_matches(info, "ThreadId"@, 1, seq![], seq![])),
            name@ != "EntityType"@ && name@ != "DisplayText"@ && name@ != "DecayComponent"@
                && name@ != "TemporalPosition"@ && name@ != "MemoryLayer"@ && name@ != "Age"@
                && name@ != "Mood"@ && name@ != "ThreadType"@ && name@ != "ThreadName"@
                && name@ != "ThreadId"@ ==> r is None,
    {
        proof {
            reveal_strlit("EntityType");
            reveal_strlit("DisplayText");
            reveal_strlit("DecayComponent");
            reveal_strlit("TemporalPosition");
            reveal_strlit("MemoryLayer");
            reveal_strlit("Age");
            reveal_strlit("Mood");
            reveal_strlit("ThreadType");
            reveal_strlit("ThreadName");
            reveal_strlit("ThreadId");
            // The catalog names are pairwise distinct: the lengths separate
            // most pairs, a first or middle character the rest.
            assert("EntityType"@.len() == 10);
            assert("DisplayText"@.len() == 11);
            assert("DecayComponent"@.len() == 14);
            assert("TemporalPosition"@.len() == 16);
            assert("MemoryLayer"@.len() == 11);
            assert("Age"@.len() == 3);
            assert("Mood"@.len() == 4);
            assert("ThreadType"@.len() == 10);
            assert("ThreadName"@.len() == 10);
            assert("ThreadId"@.len() == 8);
            assert("EntityType"@[0] == 'E');
            assert("ThreadType"@[0] == 'T');
            assert("ThreadName"@[0] == 'T');
            assert("ThreadType"@[6] == 'T');
            assert("ThreadName"@[6] == 'N');
            assert("DisplayText"@[0] == 'D');
            assert("MemoryLayer"@[0] == 'M');
            assert("EntityType"@ != "ThreadType"@);
            assert("EntityType"@ != "ThreadName"@);
            assert("ThreadType"@ != "ThreadName"@);
            assert("DisplayText"@ != "MemoryLayer"@);
        }
        if *name == "EntityType".to_owned() {
            Some(ComponentInfo {
                name: "EntityType".to_owned(),
                version: 1,
                mixins: Vec::new(),
                laws: Vec::new(),
            })
        } else if *name == "DisplayText".to_owned() {
            Some(ComponentInfo {
                name: "DisplayText".to_owned(),
                version: 1,
                mixins: Vec::new(),
                laws: Vec::new(),
            })
        } else if *name == "DecayComponent".to_owned() {
            let mut mixins: Vec<String> = Vec::new();
            mixins.push("decayable".to_owned());
            let mut laws: Vec<String> = Vec::new();
            laws.push("decay".to_owned());
            laws.push("resonance".to_owned());
            Some(ComponentInfo { name: "DecayComponent".to_owned(), version: 1, mixins, laws })
        } else if *name == "TemporalPosition".to_owned() {
            let mut laws: Vec<String> = Vec::new();
            laws.push("temporal_drift".to_owned());
            Some(ComponentInfo {
                name: "TemporalPosition".to_owned(),
                version: 1,
                mixins: Vec::new(),
                laws,
            })
        } else if *name == "MemoryLayer".to_owned() {
            let mut laws: Vec<String> = Vec::new();
            laws.push("memory_consolidation".to_owned());
            Some(ComponentInfo {
                name: "MemoryLayer".to_owned(),
                version: 1,
                mixins: Vec::new(),
                laws,
            })
        } else if *name == "Age".to_owned() {
            let mut mixins: Vec<String> = Vec::new();
            mixins.push("decayable".to_owned());
            let mut laws: Vec<String> = Vec::new();
            laws.push("decay".to_owned());
            Some(ComponentInfo { name: "Age".to_owned(), version: 1, mixins, laws })
        } else if *name == "Mood".to_owned() {
            Some(ComponentInfo {
                name: "Mood".to_owned(),
                version: 1,
                mixins: Vec::new(),
                laws: Vec::new(),
            })
        } else if *name == "ThreadType".to_owned() {
            Some(ComponentInfo {
                name: "ThreadType".to_owned(),
                version: 1,
                mixins: Vec::new(),
                laws: Vec::new(),
            })
        } else if *name == "ThreadName".to_owned() {
            Some(ComponentInfo {
                name: "ThreadName".to_owned(),
                version: 1,
                mixins: Vec::new(),
                laws: Vec::new(),
            })
        } else if *name == "ThreadId".to_owned() {
            Some(ComponentInfo {
                name: "ThreadId".to_owned(),
                version: 1,
                mixins: Vec::new(),
                laws: Vec::new(),
            })
        } else {
            None
        }
    }

    /// All component names, in catalog order.
    pub fn all_components() -> (r: Vec<String>)
        ensures
            r@.len() == 10,
            r@[0]@ == "EntityType"@,
            r@[1]@ == "DisplayText"@,
            r@[2]@ == "DecayComponent"@,
            r@[3]@ == "TemporalPosition"@,
            r@[4]@ == "MemoryLayer"@,
            r@[5]@ == "Age"@,
            r@[6]@ == "Mood"@,
            r@[7]@ == "ThreadType"@,
            r@[8]@ == "ThreadName"@,
            r@[9]@ == "ThreadId"@,
    {
        let mut r: Vec<String> = Vec::new();
        r.push("EntityType".to_owned());
        r.push("DisplayText".to_owned());
        r.push("DecayComponent".to_owned());
        r.push("TemporalPosition".to_owned());
        r.push("MemoryLayer".to_owned());
        r.push("Age".to_owned());
        r.push("Mood".to_owned());
        r.push("ThreadType".to_owned());
        r.push("ThreadName".to_owned());
        r.push("ThreadId".to_owned());
        r
    }

    /// All component names with their schema versions, in catalog order.
    pub fn get_all_components() -> (r: Vec<(String, i32)>)
        ensures
            r@.len() == 10,
            forall|i: int| 0 <= i < 10 ==> (#[trigger] r@[i]).1 == 1,
            r@[0].0@ == "EntityType"@,
            r@[1].0@ == "DisplayText"@,
            r@[2].0@ == "DecayComponent"@,
            r@[3].0@ == "TemporalPosition"@,
            r@[4].0@ == "MemoryLayer"@,
            r@[5].0@ == "Age"@,
            r@[6].0@ == "Mood"@,
            r@[7].0@ == "ThreadType"@,
            r@[8].0@ == "ThreadName"@,
            r@[9].0@ == "ThreadId"@,
    {
        let mut r: Vec<(String, i32)> = Vec::new();
        r.push(("EntityType".to_owned(), 1));
        r.push(("DisplayText".to_owned(), 1));
        r.push(("DecayComponent".to_owned(), 1));
        r.push(("TemporalPosition".to_owned(), 1));
        r.push(("MemoryLayer".to_owned(), 1));
        r.push(("Age".to_owned(), 1));
        r.push(("Mood".to_owned(), 1));
        r.push(("ThreadType".to_owned(), 1));
        r.push(("ThreadName".to_owned(), 1));
        r.push(("ThreadId".to_owned(), 1));
        r
    }

    /// The components a law governs, in catalog order; an unknown law name
    /// governs nothing.
    pub fn get_components_for_law(law_name: &String) -> (r: Vec<String>)
        ensures
            law_name@ == "decay"@ ==> r@.len() == 2
                && r@[0]@ == "DecayComponent"@ && r@[1]@ == "Age"@,
            law_name@ == "resonance"@ ==> r@.len() == 1 && r@[0]@ == "DecayComponent"@,
            law_name@ == "temporal_drift"@ ==> r@.len() == 1 && r@[0]@ == "TemporalPosition"@,
            law_name@ == "memory_consolidation"@ ==> r@.len() == 1 && r@[0]@ == "MemoryLayer"@,
            law_name@ != "decay"@ && law_name@ != "resonance"@ && law_name@ != "temporal_drift"@
                && law_name@ != "memory_consolidation"@ ==> r@.len() == 0,
    {
        proof {
            reveal_strlit("decay");
            reveal_strlit("resonance");
            reveal_strlit("temporal_drift");
            reveal_strlit("memory_consolidation");
            // The law names are pairwise distinct: their lengths differ.
            assert("decay"@.len() == 5);
            assert("resonance"@.len() == 9);
            assert("temporal_drift"@.len() == 14);
            assert("memory_consolidation"@.len() == 20);
        }
        let mut components: Vec<String> = Vec::new();
        if *law_name == "decay".to_owned() {
            components.push("DecayComponent".to_owned());
        }
        if *law_name == "resonance".to_owned() {
            components.push("DecayComponent".to_owned());
        }
        if *law_name == "temporal_drift".to_owned() {
            components.push("TemporalPosition".to_owned());
        }
        if *law_name == "memory_consolidation".to_owned() {
            components.push("MemoryLayer".to_owned());
        }
        if *law_name == "decay".to_owned() {
            components.push("Age".to_owned());
        }
        components
    }
}

} // verus!
