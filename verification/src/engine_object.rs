//! An installed engine together with the user's settings for it.

use vstd::prelude::*;
use crate::engine_data::{EngineData, EngineSource};
use crate::engine_settings::EngineSettings;
use crate::iwad_data::IWadID;

verus! {

/// An engine of the catalog and its settings.
#[derive(Clone, Copy, Debug)]
pub struct EngineObject {
    pub data: EngineData,
    pub settings: EngineSettings,
}

impl EngineObject {
    /// The engine `data` with default settings.
    pub fn new(data: &EngineData) -> (engine: EngineObject)
        ensures
            engine.data == *data,
            engine.settings == (EngineSettings { hires: false }),
    {
        EngineObject { data: *data, settings: EngineSettings { hires: false } }
    }

    pub fn name(&self) -> (name: &str)
        ensures
            name == self.data.name,
    {
        self.data.name
    }

    pub fn description(&self) -> (description: &str)
        ensures
            description == self.data.description,
    {
        self.data.description
    }

    pub fn games(&self) -> (games: IWadID)
        ensures
            games == self.data.games,
    {
        self.data.games
    }

    pub fn source(&self) -> (source: EngineSource)
        ensures
            source == self.data.source,
    {
        self.data.source
    }

    pub fn doom_path(&self) -> (path: &str)
        ensures
            path == self.data.doom_path,
    {
        self.data.doom_path
    }

    pub fn heretic_path(&self) -> (path: Option<&str>)
        ensures
            path == self.data.heretic_path,
    {
        self.data.heretic_path
    }

    pub fn hexen_path(&self) -> (path: Option<&str>)
        ensures
            path == self.data.hexen_path,
    {
        self.data.hexen_path
    }

    pub fn strife_path(&self) -> (path: Option<&str>)
        ensures
            path == self.data.strife_path,
    {
        self.data.strife_path
    }

    pub fn config_folder(&self) -> (folder: &str)
        ensures
            folder == self.data.config_folder,
    {
        self.data.config_folder
    }

    pub fn settings(&self) -> (settings: EngineSettings)
        ensures
            settings == self.settings,
    {
        self.settings
    }

    /// High-resolution graphics are to be loaded: the engine can load them
    /// and the user asked for them.
    pub open spec fn spec_wants_hires(&self) -> bool {
        self.data.spec_supports_hires() && self.settings.hires
    }

    #[verifier::when_used_as_spec(spec_wants_hires)]
    pub fn wants_hires(&self) -> (b: bool)
        ensures
            b == self.spec_wants_hires(),
    {
        self.data.supports_hires() && self.settings.hires
    }
}

/// Puts the settings of every engine back to their defaults.
pub fn reset_engine_settings(engines: &mut Vec<EngineObject>)
    ensures
        final(engines)@.len() == old(engines)@.len(),
        forall|i: int|
            0 <= i < old(engines)@.len() ==> #[trigger] final(engines)@[i] == (EngineObject {
                data: old(engines)@[i].data,
                settings: EngineSettings { hires: false },
            }),
{
    let mut i: usize = 0;
    while i < engines.len()
        invariant
            i <= engines@.len(),
            engines@.len() == old(engines)@.len(),
            forall|j: int|
                0 <= j < i ==> #[trigger] engines@[j] == (EngineObject {
                    data: old(engines)@[j].data,
                    settings: EngineSettings { hires: false },
                }),
            forall|j: int| i <= j < engines@.len() ==> #[trigger] engines@[j] == old(engines)@[j],
        decreases engines.len() - i,
    {
        let data = engines[i].data;
        engines.set(i, EngineObject { data, settings: EngineSettings { hires: false } });
        i = i + 1;
    }
}

} // verus!
