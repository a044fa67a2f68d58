//! Events about chunks and tiles, sent between the systems.
use vstd::prelude::*;

use crate::game_world::{ChunkIndex, TileIndex};

verus! {

/// Different events regarding chunks.
#[derive(PartialEq, Eq, Structural, Copy, Clone, Debug)]
pub enum ChunkEvent {
    /// A chunk is requested to be added to the planet,
    /// either by loading it from disk, or by generating a new chunk.
    RequestingLoad(ChunkIndex),
    /// Sent if a chunk was successfully loaded or generated.
    Loaded(ChunkIndex),
    /// Sent if a chunk could neither be loaded nor generated.
    FailedLoad(ChunkIndex),
    /// Counterpart to `RequestingLoad`: saves a chunk to disk.
    RequestingUnload(ChunkIndex),
    /// Sent if a chunk was successfully saved on disk.
    Unloaded(ChunkIndex),
    /// Sent if a chunk could not be saved to disk.
    FailedUnload(ChunkIndex),
}

/// Different events regarding tile entities.
#[derive(PartialEq, Eq, Structural, Copy, Clone, Debug)]
pub enum TileEvent {
    /// A tile the player has vision on is requested to be uncovered from the fog of war.
    RequestingUncover(TileIndex),
    /// Sent if a tile's fog of war has been successfully removed.
    Uncovered(TileIndex),
    /// Sent if a tile's fog of war could not be removed.
    FailedUncover(TileIndex),
    /// A tile the player drilled into is requested to be deleted.
    RequestDeletion(TileIndex),
    /// Sent if a tile could not be deleted.
    FailedDelete(TileIndex),
}

} // verus!
