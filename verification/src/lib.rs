//! Toppa Drill: the rules of a drilling game's world.
//!
//! The planet is a grid of chunks, each chunk a grid of tiles. This crate
//! holds the verified logic of that world: index arithmetic and clamping,
//! the chunk store of a planet, the tile store of a chunk, tile generation
//! by depth, the player's position tracking with its chunk load window,
//! and the small decision tables of the menus.
pub mod components;
pub mod entities;
pub mod events;
pub mod game_world;
pub mod key_order;
pub mod resources;
pub mod session;
pub mod states;
pub mod systems;
pub mod text;
pub mod tiles;
