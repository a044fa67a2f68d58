//! The data of a running game and where its savegame lives.
use vstd::prelude::*;

use std::path::PathBuf;

use crate::game_world::Planet;

verus! {

/// `std::path::PathBuf`, carried through the library as it is; nothing is claimed of it.
#[verifier::external_type_specification]
#[verifier::external_body]
pub struct ExPathBuf(PathBuf);

/// Data specific to the current game,
/// gets loaded or created when the user starts a new game.
pub struct GameSessionData {
    /// The name of this game, also used as the savegame's name.
    pub game_name: String,
    /// The planet is a container for chunks, which hold the different tiles.
    pub planet: Planet,
}

impl GameSessionData {
    /// A new game named `name` on a planet of `planet_dim` chunks of `chunk_dim` tiles,
    /// with no chunk loaded yet.
    pub fn new(name: String, planet_dim: (u64, u64), chunk_dim: (u64, u64)) -> (r: GameSessionData)
        ensures
            r.game_name == name,
            r.planet.planet_dims() == planet_dim,
            r.planet.chunk_dims() == chunk_dim,
            r.planet.chunk_map() == Map::<(u64, u64), crate::game_world::Chunk>::empty(),
    {
        GameSessionData { game_name: name, planet: Planet::new(planet_dim, chunk_dim) }
    }
}

/// The first part of a savegame as it was once written: the game's name and its planet.
pub struct DummyStructOne {
    pub game_name: String,
    pub planet: DummyStructTwo,
}

/// The dimensions of a planet as they were once written to a savegame.
pub struct DummyStructTwo {
    pub planet_dim: (u64, u64),
    pub chunk_dim: (u64, u64),
}

/// Where the savegame of the running game lives.
pub struct SavegamePaths {
    pub savegame_dir_path: PathBuf,
    pub planet_file_path: PathBuf,
    pub chunk_dir_path: PathBuf,
}

} // verus!
