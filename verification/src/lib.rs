//! Content identification and compatibility resolution for a launcher of
//! classic game engines.
//!
//! The library identifies game data archives by checksum against a fixed
//! reference catalog, works out which installed engines can run a chosen
//! archive, and assembles the argument list that starts the game.

pub mod disk;
pub mod engine_data;
pub mod engine_object;
pub mod engine_settings;
pub mod graphics_data;
pub mod iwad_data;
pub mod iwad_object;
pub mod labels;
pub mod launch;
pub mod pwad_data;
pub mod resolver;
pub mod scan;
pub mod text;
pub mod utils;
