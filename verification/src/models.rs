//! The values that the agents report and the catalog of factory components.
use vstd::prelude::*;

verus! {

/// One event that the backend reports about an agent: who, in which state,
/// and a line of detail.
pub struct AgentEvent {
    pub agent_id: String,
    pub status: String,
    pub details: String,
}

/// The event with the given fields.
pub fn agent_event(agent_id: &str, status: &str, details: &str) -> (e: AgentEvent)
    ensures
        e.agent_id@ == agent_id@,
        e.status@ == status@,
        e.details@ == details@,
{
    AgentEvent {
        agent_id: String::from_str(agent_id),
        status: String::from_str(status),
        details: String::from_str(details),
    }
}

/// A factory building that the producer can order: its name, its footprint
/// in whole canvas units, and the file that draws it.
#[derive(Clone, Copy)]
pub struct PredefComponent {
    pub name: &'static str,
    pub width: u32,
    pub height: u32,
    pub svg_file: &'static str,
}

/// A component as plain values.
pub struct ComponentView {
    pub name: Seq<char>,
    pub width: nat,
    pub height: nat,
    pub svg_file: Seq<char>,
}

impl View for PredefComponent {
    type V = ComponentView;

    open spec fn view(&self) -> ComponentView {
        ComponentView {
            name: self.name@,
            width: self.width as nat,
            height: self.height as nat,
            svg_file: self.svg_file@,
        }
    }
}

/// The component with the given fields.
pub open spec fn component(name: Seq<char>, width: nat, height: nat, svg_file: Seq<char>) -> ComponentView {
    ComponentView { name, width, height, svg_file }
}

/// The ten buildings of the catalog, in catalog order.
pub open spec fn catalog() -> Seq<ComponentView> {
    seq![
        component("IRON MINE"@, 140, 140, "iron_mine.svg"@),
        component("COPPER MINE"@, 140, 140, "copper_mine.svg"@),
        component("SMELTER"@, 180, 180, "smelter.svg"@),
        component("ASSEMBLER"@, 200, 200, "assembler.svg"@),
        component("WAREHOUSE"@, 240, 160, "warehouse.svg"@),
        component("POWER PLANT"@, 220, 220, "power_plant.svg"@),
        component("TRANSPORT HUB"@, 120, 120, "transport_hub.svg"@),
        component("FLUID PUMP"@, 100, 160, "fluid_pump.svg"@),
        component("RESEARCH LAB"@, 260, 260, "research_lab.svg"@),
        component("SOLAR ARRAY"@, 160, 240, "solar_array.svg"@),
    ]
}

/// The character of a building's name in the name of its drawing file:
/// capitals in lower case, a space as `_`, anything else as it is.
pub open spec fn file_char(c: char) -> char {
    if 'A' <= c && c <= 'Z' {
        ((c as u32) + 32) as char
    } else if c == ' ' {
        '_'
    } else {
        c
    }
}

/// The drawing file of a building named `name`: the name in lower case with
/// spaces as `_`, and `.svg`.
pub open spec fn asset_file(name: Seq<char>) -> Seq<char> {
    name.map_values(|c: char| file_char(c)) + ".svg"@
}

/// Every building of the catalog is drawn by the file named after it.
pub proof fn lemma_catalog_files()
    ensures
        forall|i: int|
            0 <= i < catalog().len() ==> (#[trigger] catalog()[i]).svg_file == asset_file(
                catalog()[i].name,
            ),
{
    reveal_strlit(".svg");
    reveal_strlit("IRON MINE");
    reveal_strlit("iron_mine.svg");
    reveal_strlit("COPPER MINE");
    reveal_strlit("copper_mine.svg");
    reveal_strlit("SMELTER");
    reveal_strlit("smelter.svg");
    reveal_strlit("ASSEMBLER");
    reveal_strlit("assembler.svg");
    reveal_strlit("WAREHOUSE");
    reveal_strlit("warehouse.svg");
    reveal_strlit("POWER PLANT");
    reveal_strlit("power_plant.svg");
    reveal_strlit("TRANSPORT HUB");
    reveal_strlit("transport_hub.svg");
    reveal_strlit("FLUID PUMP");
    reveal_strlit("fluid_pump.svg");
    reveal_strlit("RESEARCH LAB");
    reveal_strlit("research_lab.svg");
    reveal_strlit("SOLAR ARRAY");
    reveal_strlit("solar_array.svg");
    assert(asset_file("IRON MINE"@) =~= "iron_mine.svg"@);
    assert(asset_file("COPPER MINE"@) =~= "copper_mine.svg"@);
    assert(asset_file("SMELTER"@) =~= "smelter.svg"@);
    assert(asset_file("ASSEMBLER"@) =~= "assembler.svg"@);
    assert(asset_file("WAREHOUSE"@) =~= "warehouse.svg"@);
    assert(asset_file("POWER PLANT"@) =~= "power_plant.svg"@);
    assert(asset_file("TRANSPORT HUB"@) =~= "transport_hub.svg"@);
    assert(asset_file("FLUID PUMP"@) =~= "fluid_pump.svg"@);
    assert(asset_file("RESEARCH LAB"@) =~= "research_lab.svg"@);
    assert(asset_file("SOLAR ARRAY"@) =~= "solar_array.svg"@);
}

/// The catalog, in catalog order.
pub fn predef_components() -> (v: Vec<PredefComponent>)
    ensures
        v.len() == catalog().len(),
        forall|i: int| 0 <= i < v.len() ==> #[trigger] v[i]@ == catalog()[i],
        forall|i: int| 0 <= i < v.len() ==> (#[trigger] v[i]).svg_file@ == asset_file(v[i].name@),
{
    let v = vec![
        PredefComponent { name: "IRON MINE", width: 140, height: 140, svg_file: "iron_mine.svg" },
        PredefComponent { name: "COPPER MINE", width: 140, height: 140, svg_file: "copper_mine.svg" },
        PredefComponent { name: "SMELTER", width: 180, height: 180, svg_file: "smelter.svg" },
        PredefComponent { name: "ASSEMBLER", width: 200, height: 200, svg_file: "assembler.svg" },
        PredefComponent { name: "WAREHOUSE", width: 240, height: 160, svg_file: "warehouse.svg" },
        PredefComponent { name: "POWER PLANT", width: 220, height: 220, svg_file: "power_plant.svg" },
        PredefComponent { name: "TRANSPORT HUB", width: 120, height: 120, svg_file: "transport_hub.svg" },
        PredefComponent { name: "FLUID PUMP", width: 100, height: 160, svg_file: "fluid_pump.svg" },
        PredefComponent { name: "RESEARCH LAB", width: 260, height: 260, svg_file: "research_lab.svg" },
        PredefComponent { name: "SOLAR ARRAY", width: 160, height: 240, svg_file: "solar_array.svg" },
    ];
    assert(v.len() == 10);
    proof {
        lemma_catalog_files();
    }
    v
}

} // verus!
