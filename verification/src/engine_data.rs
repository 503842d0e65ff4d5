//! The catalog of known engines and the executable that each one starts for
//! a given title.

use vstd::prelude::*;
use crate::iwad_data::{IWadID, ALL, ALL_NO_STRIFE, DOOM_ONLY, HERETIC, HEXEN, STRIFE};

verus! {

/// Which engine an entry of the catalog is.
#[derive(Clone, Copy, PartialEq, Eq, Structural, Debug, Hash)]
pub enum EngineID {
    ChocolateDoom,
    CrispyDoom,
    DSDADoom,
    GZDoom,
    NuggetDoom,
    VKDoom,
    Woof,
}

impl Default for EngineID {
    fn default() -> (id: EngineID)
        ensures
            id == EngineID::ChocolateDoom,
    {
        EngineID::ChocolateDoom
    }
}

/// The code base that an engine descends from.
#[derive(Clone, Copy, PartialEq, Eq, Structural, Debug, Hash)]
pub enum EngineSource {
    Chocolate,
    PrBoom,
    WinMBF,
    ZDoom,
}

impl Default for EngineSource {
    fn default() -> (source: EngineSource)
        ensures
            source == EngineSource::Chocolate,
    {
        EngineSource::Chocolate
    }
}

/// One engine of the catalog.
#[derive(Clone, Copy, Debug)]
pub struct EngineData {
    pub id: EngineID,
    pub name: &'static str,
    pub description: &'static str,
    pub source: EngineSource,
    /// The titles that the engine can run.
    pub games: IWadID,
    /// The compatibility level that the engine plays at.
    pub compatibility: u32,
    /// The executable that runs every title without one of its own.
    pub doom_path: &'static str,
    pub heretic_path: Option<&'static str>,
    pub hexen_path: Option<&'static str>,
    pub strife_path: Option<&'static str>,
    /// Where the engine keeps its settings; may name environment variables.
    pub config_folder: &'static str,
}

impl EngineData {
    /// The executable that the engine starts for `variant`: the one it has
    /// for Heretic, Hexen or Strife when `variant` is that title and the
    /// engine ships one, and its main executable otherwise.
    pub open spec fn spec_executable_for(&self, variant: IWadID) -> &'static str {
        if variant.bits == HERETIC && self.heretic_path is Some {
            self.heretic_path->0
        } else if variant.bits == HEXEN && self.hexen_path is Some {
            self.hexen_path->0
        } else if variant.bits == STRIFE && self.strife_path is Some {
            self.strife_path->0
        } else {
            self.doom_path
        }
    }

    /// The engine can load high-resolution replacement graphics.
    pub open spec fn spec_supports_hires(&self) -> bool {
        self.source == EngineSource::ZDoom
    }

    pub fn id(&self) -> (id: EngineID)
        ensures
            id == self.id,
    {
        self.id
    }

    pub fn name(&self) -> (name: &str)
        ensures
            name == self.name,
    {
        self.name
    }

    pub fn description(&self) -> (description: &str)
        ensures
            description == self.description,
    {
        self.description
    }

    pub fn source(&self) -> (source: EngineSource)
        ensures
            source == self.source,
    {
        self.source
    }

    pub fn games(&self) -> (games: IWadID)
        ensures
            games == self.games,
    {
        self.games
    }

    pub fn compatibility(&self) -> (level: u32)
        ensures
            level == self.compatibility,
    {
        self.compatibility
    }

    /// The engine's main executable.
    pub fn path(&self) -> (path: &str)
        ensures
            path == self.doom_path,
    {
        self.doom_path
    }

    pub fn heretic_path(&self) -> (path: Option<&str>)
        ensures
            path == self.heretic_path,
    {
        self.heretic_path
    }

    pub fn hexen_path(&self) -> (path: Option<&str>)
        ensures
            path == self.hexen_path,
    {
        self.hexen_path
    }

    pub fn strife_path(&self) -> (path: Option<&str>)
        ensures
            path == self.strife_path,
    {
        self.strife_path
    }

    pub fn config_folder(&self) -> (folder: &str)
        ensures
            folder == self.config_folder,
    {
        self.config_folder
    }

    #[verifier::when_used_as_spec(spec_supports_hires)]
    pub fn supports_hires(&self) -> (b: bool)
        ensures
            b == self.spec_supports_hires(),
    {
        match self.source {
            EngineSource::ZDoom => true,
            _ => false,
        }
    }

    #[verifier::when_used_as_spec(spec_executable_for)]
    pub fn executable_for(&self, variant: IWadID) -> (path: &'static str)
        ensures
            path == self.spec_executable_for(variant),
    {
        let own = if variant.bits == HERETIC {
            self.heretic_path
        } else if variant.bits == HEXEN {
            self.hexen_path
        } else if variant.bits == STRIFE {
            self.strife_path
        } else {
            None
        };
        match own {
            Some(path) => path,
            None => self.doom_path,
        }
    }
}

/// The known engines, in catalog order.
pub open spec fn engine_array() -> Seq<EngineData> {
    seq![
        EngineData {
            id: EngineID::ChocolateDoom,
            name: "Chocolate Doom",
            description: "Historically-accurate Doom, Heretic, Hexen, and Strife port",
            source: EngineSource::Chocolate,
            games: IWadID { bits: ALL },
            compatibility: 5,
            doom_path: "/usr/bin/chocolate-doom",
            heretic_path: Some("/usr/bin/chocolate-heretic"),
            hexen_path: Some("/usr/bin/chocolate-hexen"),
            strife_path: Some("/usr/bin/chocolate-strife"),
            config_folder: "$HOME/.local/share/chocolate-doom",
        },
        EngineData {
            id: EngineID::CrispyDoom,
            name: "Crispy Doom",
            description: "Vanilla-compatible enhanced Doom engine",
            source: EngineSource::Chocolate,
            games: IWadID { bits: ALL },
            compatibility: 5,
            doom_path: "/usr/bin/crispy-doom",
            heretic_path: Some("/usr/bin/crispy-heretic"),
            hexen_path: Some("/usr/bin/crispy-hexen"),
            strife_path: Some("/usr/bin/crispy-strife"),
            config_folder: "$HOME/.local/share/crispy-doom",
        },
        EngineData {
            id: EngineID::DSDADoom,
            name: "DSDA-Doom",
            description: "Fork of PrBoom+ with extra tooling for demo recording and playback, with a focus on speedrunning",
            source: EngineSource::PrBoom,
            games: IWadID { bits: ALL_NO_STRIFE },
            compatibility: 5,
            doom_path: "/usr/bin/dsda-doom",
            heretic_path: None,
            hexen_path: None,
            strife_path: None,
            config_folder: "$HOME/.local/share/dsda-doom",
        },
        EngineData {
            id: EngineID::GZDoom,
            name: "GZDoom",
            description: "Feature centric port for all Doom engine games",
            source: EngineSource::ZDoom,
            games: IWadID { bits: ALL },
            compatibility: 2,
            doom_path: "/usr/bin/gzdoom",
            heretic_path: None,
            hexen_path: None,
            strife_path: None,
            config_folder: "$HOME/.config/gzdoom",
        },
        EngineData {
            id: EngineID::NuggetDoom,
            name: "Nugget Doom",
            description: "Fork of Woof! with additional features",
            source: EngineSource::WinMBF,
            games: IWadID { bits: DOOM_ONLY },
            compatibility: 5,
            doom_path: "/usr/bin/nugget-doom",
            heretic_path: None,
            hexen_path: None,
            strife_path: None,
            config_folder: "$HOME/.local/share/nugget-doom",
        },
        EngineData {
            id: EngineID::VKDoom,
            name: "VKDoom",
            description: "VKDoom is a source port based on the DOOM engine with a focus on Vulkan and modern computers",
            source: EngineSource::ZDoom,
            games: IWadID { bits: ALL },
            compatibility: 2,
            doom_path: "/usr/bin/vkdoom",
            heretic_path: None,
            hexen_path: None,
            strife_path: None,
            config_folder: "$HOME/.config/vkdoom",
        },
        EngineData {
            id: EngineID::Woof,
            name: "Woof!",
            description: "Woof! is a continuation of Lee Killough's Doom source port MBF targeted at modern systems",
            source: EngineSource::WinMBF,
            games: IWadID { bits: DOOM_ONLY },
            compatibility: 5,
            doom_path: "/usr/bin/woof",
            heretic_path: None,
            hexen_path: None,
            strife_path: None,
            config_folder: "$HOME/.local/share/woof",
        },
    ]
}

/// Lists the known engines, in catalog order.
pub fn all_entries() -> (engines: Vec<EngineData>)
    ensures
        engines@ == engine_array(),
{
    let mut engines: Vec<EngineData> = Vec::new();
    engines.push(
        EngineData {
            id: EngineID::ChocolateDoom,
            name: "Chocolate Doom",
            description: "Historically-accurate Doom, Heretic, Hexen, and Strife port",
            source: EngineSource::Chocolate,
            games: IWadID { bits: ALL },
            compatibility: 5,
            doom_path: "/usr/bin/chocolate-doom",
            heretic_path: Some("/usr/bin/chocolate-heretic"),
            hexen_path: Some("/usr/bin/chocolate-hexen"),
            strife_path: Some("/usr/bin/chocolate-strife"),
            config_folder: "$HOME/.local/share/chocolate-doom",
        },
    );
    engines.push(
        EngineData {
            id: EngineID::CrispyDoom,
            name: "Crispy Doom",
            description: "Vanilla-compatible enhanced Doom engine",
            source: EngineSource::Chocolate,
            games: IWadID { bits: ALL },
            compatibility: 5,
            doom_path: "/usr/bin/crispy-doom",
            heretic_path: Some("/usr/bin/crispy-heretic"),
            hexen_path: Some("/usr/bin/crispy-hexen"),
            strife_path: Some("/usr/bin/crispy-strife"),
            config_folder: "$HOME/.local/share/crispy-doom",
        },
    );
    engines.push(
        EngineData {
            id: EngineID::DSDADoom,
            name: "DSDA-Doom",
            description: "Fork of PrBoom+ with extra tooling for demo recording and playback, with a focus on speedrunning",
            source: EngineSource::PrBoom,
            games: IWadID { bits: ALL_NO_STRIFE },
            compatibility: 5,
            doom_path: "/usr/bin/dsda-doom",
            heretic_path: None,
            hexen_path: None,
            strife_path: None,
            config_folder: "$HOME/.local/share/dsda-doom",
        },
    );
    engines.push(
        EngineData {
            id: EngineID::GZDoom,
            name: "GZDoom",
            description: "Feature centric port for all Doom engine games",
            source: EngineSource::ZDoom,
            games: IWadID { bits: ALL },
            compatibility: 2,
            doom_path: "/usr/bin/gzdoom",
            heretic_path: None,
            hexen_path: None,
            strife_path: None,
            config_folder: "$HOME/.config/gzdoom",
        },
    );
    engines.push(
        EngineData {
            id: EngineID::NuggetDoom,
            name: "Nugget Doom",
            description: "Fork of Woof! with additional features",
            source: EngineSource::WinMBF,
            games: IWadID { bits: DOOM_ONLY },
            compatibility: 5,
            doom_path: "/usr/bin/nugget-doom",
            heretic_path: None,
            hexen_path: None,
            strife_path: None,
            config_folder: "$HOME/.local/share/nugget-doom",
        },
    );
    engines.push(
        EngineData {
            id: EngineID::VKDoom,
            name: "VKDoom",
            description: "VKDoom is a source port based on the DOOM engine with a focus on Vulkan and modern computers",
            source: EngineSource::ZDoom,
            games: IWadID { bits: ALL },
            compatibility: 2,
            doom_path: "/usr/bin/vkdoom",
            heretic_path: None,
            hexen_path: None,
            strife_path: None,
            config_folder: "$HOME/.config/vkdoom",
        },
    );
    engines.push(
        EngineData {
            id: EngineID::Woof,
            name: "Woof!",
            description: "Woof! is a continuation of Lee Killough's Doom source port MBF targeted at modern systems",
            source: EngineSource::WinMBF,
            games: IWadID { bits: DOOM_ONLY },
            compatibility: 5,
            doom_path: "/usr/bin/woof",
            heretic_path: None,
            hexen_path: None,
            strife_path: None,
            config_folder: "$HOME/.local/share/woof",
        },
    );
    engines
}

/// An engine that ships no executable of its own for a title starts its
/// main executable for it.
pub proof fn lemma_executable_falls_back(engine: EngineData, variant: IWadID)
    requires
        variant.bits == HERETIC ==> engine.heretic_path is None,
        variant.bits == HEXEN ==> engine.hexen_path is None,
        variant.bits == STRIFE ==> engine.strife_path is None,
    ensures
        engine.spec_executable_for(variant) == engine.doom_path,
{
}

/// No two engines of the catalog have the same name or are the same
/// engine.
pub proof fn lemma_engines_distinct()
    ensures
        forall|i: int, j: int|
            0 <= i < j < engine_array().len() ==> (#[trigger] engine_array()[i]).name@
                != (#[trigger] engine_array()[j]).name@ && engine_array()[i].id
                != engine_array()[j].id,
{
    reveal_strlit("Chocolate Doom");
    reveal_strlit("Crispy Doom");
    reveal_strlit("DSDA-Doom");
    reveal_strlit("GZDoom");
    reveal_strlit("Nugget Doom");
    reveal_strlit("VKDoom");
    reveal_strlit("Woof!");
    let names = Seq::new(engine_array().len(), |i: int| engine_array()[i].name@);
    assert(names[0].len() == 14);
    assert(names[1].len() == 11 && names[1][0] == 'C');
    assert(names[2].len() == 9);
    assert(names[3].len() == 6 && names[3][0] == 'G');
    assert(names[4].len() == 11 && names[4][0] == 'N');
    assert(names[5].len() == 6 && names[5][0] == 'V');
    assert(names[6].len() == 5);
    assert forall|i: int, j: int| 0 <= i < j < engine_array().len() implies (
    #[trigger] engine_array()[i]).name@ != (#[trigger] engine_array()[j]).name@
        && engine_array()[i].id != engine_array()[j].id by {
        assert(names[i] == engine_array()[i].name@);
        assert(names[j] == engine_array()[j].name@);
    }
}

/// Every engine of the catalog runs titles that exist, and runs Doom.
pub proof fn lemma_engines_run_known_titles()
    ensures
        forall|i: int|
            0 <= i < engine_array().len() ==> (IWadID { bits: ALL }).spec_contains(
                (#[trigger] engine_array()[i]).games,
            ) && engine_array()[i].games.spec_contains((IWadID { bits: DOOM_ONLY })),
{
    assert(ALL & ALL == ALL && ALL & ALL_NO_STRIFE == ALL_NO_STRIFE && ALL & DOOM_ONLY == DOOM_ONLY
        && ALL_NO_STRIFE & DOOM_ONLY == DOOM_ONLY && DOOM_ONLY & DOOM_ONLY == DOOM_ONLY)
        by (bit_vector);
}

} // verus!
