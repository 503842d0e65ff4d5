//! The settings that a user keeps for one engine.

use vstd::prelude::*;

verus! {

/// Per-engine settings. So far there is one: whether high-resolution
/// graphics are asked for.
#[derive(Clone, Copy, PartialEq, Eq, Structural, Debug)]
pub struct EngineSettings {
    pub hires: bool,
}

impl EngineSettings {
    pub fn new(hires: bool) -> (settings: EngineSettings)
        ensures
            settings.hires == hires,
    {
        EngineSettings { hires }
    }

    pub fn hires(&self) -> (hires: bool)
        ensures
            hires == self.hires,
    {
        self.hires
    }

    pub fn set_hires(&mut self, hires: bool)
        ensures
            final(self).hires == hires,
    {
        self.hires = hires;
    }

    /// Puts every setting back to its default.
    pub fn reset(&mut self)
        ensures
            *final(self) == (EngineSettings { hires: false }),
    {
        self.hires = false;
    }
}

impl Default for EngineSettings {
    fn default() -> (settings: EngineSettings)
        ensures
            settings == (EngineSettings { hires: false }),
    {
        EngineSettings { hires: false }
    }
}

} // verus!
