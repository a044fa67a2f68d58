//! The kinds of entities of the game and the sprites registered for them.
use vstd::prelude::*;

use crate::tiles::TileTypes;

verus! {

/// The hull of the ship, provides resistance against forces and impacts.
#[derive(PartialEq, Eq, Structural, Copy, Clone, Debug, Hash, PartialOrd, Ord)]
pub enum ShipTypes {
    /// Dummy, if a ship has no implementation yet.
    NotImplemented,
    /// Base-model every player starts with, low resistance against all.
    Mk1506,
    /// Mid tier model with moderate resistance against heat, forces and impact.
    Albatros,
    /// Highest end model, providing the highest resistance against heat, forces and impact.
    L14Ultra,
}

/// Different types of drill provide different drilling speeds and durability.
#[derive(PartialEq, Eq, Structural, Copy, Clone, Debug, Hash, PartialOrd, Ord)]
pub enum DrillTypes {
    /// Dummy, if a drill has no implementation yet
    NotImplemented,
    /// Cold work steel, lowest performance
    C45U,
    /// Cold work steel, very low performance
    C105U,
    /// Speed steel, low performance
    HS6_5_2C,
    /// Speed steel, high performance
    HS6_5_2_5,
    /// High Speed steel, highest performance
    HS6_5_2_5Diamond,
}

/// The parts a player's machine is built from.
#[derive(PartialEq, Eq, Structural, Copy, Clone, Debug, Hash, PartialOrd, Ord)]
pub enum PlayerParts {
    Ship(ShipTypes),
    Drill(DrillTypes),
    Tracks,
}

/// The key under which a sprite is registered for an entity.
#[derive(PartialEq, Eq, Structural, Copy, Clone, Debug, Hash, PartialOrd, Ord)]
pub enum EntitySpriteRender {
    Player(PlayerParts),
    Ore(TileTypes),
}

/// Problems when creating a drill.
#[derive(PartialEq, Eq, Structural, Copy, Clone, Debug, Hash, PartialOrd, Ord)]
pub enum DrillError {
    NotImplemented,
    MissingSpriteRender(DrillTypes),
}

/// Problems when creating a player.
#[derive(PartialEq, Eq, Structural, Copy, Clone, Debug, Hash, PartialOrd, Ord)]
pub enum PlayerError {
    NotImplemented,
    NoPositionFromTransform,
    MissingSpriteRender(ShipTypes),
}

/// Problems when creating tracks.
#[derive(PartialEq, Eq, Structural, Copy, Clone, Debug, Hash, PartialOrd, Ord)]
pub enum TracksError {
    NotImplemented,
    MissingSpriteRender,
}

/// Problems when creating an entity.
#[derive(PartialEq, Eq, Structural, Copy, Clone, Debug, Hash, PartialOrd, Ord)]
pub enum EntityError {
    NotImplemented,
    PlayerProblem(PlayerError),
    DrillProblem(DrillError),
    TracksProblem(TracksError),
}

/// The drill sprites in the order of the drill spritesheet.
pub open spec fn spec_drill_sprites() -> Seq<(usize, EntitySpriteRender)> {
    seq![
        (0usize, EntitySpriteRender::Player(PlayerParts::Drill(DrillTypes::NotImplemented))),
        (1usize, EntitySpriteRender::Player(PlayerParts::Drill(DrillTypes::C45U))),
        (2usize, EntitySpriteRender::Player(PlayerParts::Drill(DrillTypes::C105U))),
        (3usize, EntitySpriteRender::Player(PlayerParts::Drill(DrillTypes::HS6_5_2C))),
        (4usize, EntitySpriteRender::Player(PlayerParts::Drill(DrillTypes::HS6_5_2_5))),
        (5usize, EntitySpriteRender::Player(PlayerParts::Drill(DrillTypes::HS6_5_2_5Diamond))),
    ]
}

/// Sprite numbers and the drill sprites to register under them.
pub fn drill_sprites() -> (r: Vec<(usize, EntitySpriteRender)>)
    ensures
        r@ == spec_drill_sprites(),
{
    let mut v: Vec<(usize, EntitySpriteRender)> = Vec::new();
    v.push((0, EntitySpriteRender::Player(PlayerParts::Drill(DrillTypes::NotImplemented))));
    v.push((1, EntitySpriteRender::Player(PlayerParts::Drill(DrillTypes::C45U))));
    v.push((2, EntitySpriteRender::Player(PlayerParts::Drill(DrillTypes::C105U))));
    v.push((3, EntitySpriteRender::Player(PlayerParts::Drill(DrillTypes::HS6_5_2C))));
    v.push((4, EntitySpriteRender::Player(PlayerParts::Drill(DrillTypes::HS6_5_2_5))));
    v.push((5, EntitySpriteRender::Player(PlayerParts::Drill(DrillTypes::HS6_5_2_5Diamond))));
    v
}

/// Sprite numbers and the ship sprites to register under them.
pub fn player_sprites() -> (r: Vec<(usize, EntitySpriteRender)>)
    ensures
        r@ == seq![(0usize, EntitySpriteRender::Player(PlayerParts::Ship(ShipTypes::NotImplemented)))],
{
    let mut v: Vec<(usize, EntitySpriteRender)> = Vec::new();
    v.push((0, EntitySpriteRender::Player(PlayerParts::Ship(ShipTypes::NotImplemented))));
    v
}

/// Sprite numbers and the tracks sprites to register under them.
pub fn tracks_sprites() -> (r: Vec<(usize, EntitySpriteRender)>)
    ensures
        r@ == seq![(0usize, EntitySpriteRender::Player(PlayerParts::Tracks))],
{
    let mut v: Vec<(usize, EntitySpriteRender)> = Vec::new();
    v.push((0, EntitySpriteRender::Player(PlayerParts::Tracks)));
    v
}

} // verus!
