//! Components of the game's entities and the generator of character tags.
use vstd::prelude::*;

use crate::game_world::{ChunkIndex, TileIndex};

verus! {

/// This component is meant for player entities.
#[derive(PartialEq, Eq, Structural, Copy, Clone, Debug)]
pub struct PlayerBase {
    pub id: usize,
}

/// This component is meant for npc entities.
#[derive(PartialEq, Eq, Structural, Copy, Clone, Debug)]
pub struct NPCBase {
    pub id: usize,
}

/// A resource to generate new player and NPC tags with unique IDs.
/// Can run out of IDs, since freed IDs are not tracked.
/// The lowest valid ID is `1`, `0` is an invalid ID.
#[derive(Debug)]
pub struct TagGenerator {
    player_count: usize,
    npc_count: usize,
}

impl TagGenerator {
    /// How many player tags were handed out.
    pub closed spec fn players(&self) -> usize {
        self.player_count
    }

    /// How many NPC tags were handed out.
    pub closed spec fn npcs(&self) -> usize {
        self.npc_count
    }

    /// How many player tags were handed out.
    pub fn player_count(&self) -> (r: usize)
        ensures
            r == self.players(),
    {
        self.player_count
    }

    /// How many NPC tags were handed out.
    pub fn npc_count(&self) -> (r: usize)
        ensures
            r == self.npcs(),
    {
        self.npc_count
    }

    /// Hands out the next player tag.
    pub fn new_player_tag(&mut self) -> (r: PlayerBase)
        requires
            old(self).players() < usize::MAX,
        ensures
            r.id == old(self).players() + 1,
            final(self).players() == r.id,
            final(self).npcs() == old(self).npcs(),
    {
        self.player_count += 1;
        PlayerBase { id: self.player_count }
    }

    /// Hands out the next NPC tag.
    pub fn new_npc_tag(&mut self) -> (r: NPCBase)
        requires
            old(self).npcs() < usize::MAX,
        ensures
            r.id == old(self).npcs() + 1,
            final(self).npcs() == r.id,
            final(self).players() == old(self).players(),
    {
        self.npc_count += 1;
        NPCBase { id: self.npc_count }
    }
}

impl Default for TagGenerator {
    /// A generator that has handed out no tag.
    fn default() -> (r: Self)
        ensures
            r.players() == 0,
            r.npcs() == 0,
    {
        TagGenerator { player_count: 0, npc_count: 0 }
    }
}

/// Tags are valid and unique: every tag a generator hands out is at least `1`, and a
/// later tag of the same kind is greater than an earlier one.
pub proof fn lemma_player_tags_unique(
    before: TagGenerator,
    first: PlayerBase,
    middle: TagGenerator,
    second: PlayerBase,
)
    requires
        first.id == before.players() + 1,
        middle.players() == first.id,
        second.id == middle.players() + 1,
    ensures
        first.id >= 1,
        second.id >= 1,
        first.id < second.id,
{
}

/// Over a run of `new_player_tag` calls (NPC tags may be handed out in between, which
/// leaves the player count as it is), the ids are the count before the run plus one, two,
/// three and so on: all at least `1`, increasing, and so never handed out twice.
/// `counts[i]` is the player count before the `i`-th call and `ids[i]` the id it returned.
pub proof fn lemma_player_tags_over_calls(counts: Seq<usize>, ids: Seq<usize>)
    requires
        counts.len() == ids.len() + 1,
        forall|i: int| 0 <= i < ids.len() ==> #[trigger] ids[i] == counts[i] + 1,
        forall|i: int| 0 <= i < ids.len() ==> #[trigger] counts[i + 1] == ids[i],
    ensures
        forall|i: int| 0 <= i < ids.len() ==> #[trigger] ids[i] == counts[0] + 1 + i,
        forall|i: int| 0 <= i < ids.len() ==> #[trigger] ids[i] >= 1,
        forall|i: int, j: int| 0 <= i < j < ids.len() ==> #[trigger] ids[i] < #[trigger] ids[j],
    decreases ids.len(),
{
    if ids.len() > 0 {
        let n = ids.len() - 1;
        lemma_player_tags_over_calls(counts.subrange(0, n + 1), ids.subrange(0, n));
        assert forall|i: int| 0 <= i < ids.len() implies #[trigger] ids[i] == counts[0] + 1 + i by {
            if i < n {
                assert(ids.subrange(0, n)[i] == ids[i]);
            } else {
                assert(counts[n] == counts[0] + n) by {
                    if n > 0 {
                        assert(ids.subrange(0, n)[n - 1] == ids[n - 1]);
                        assert(counts[(n - 1) + 1] == ids[n - 1]);
                    }
                }
            }
        }
    }
}

/// This component stores the current chunk and tile the player resides on.
#[derive(PartialEq, Eq, Structural, Copy, Clone, Debug)]
pub struct Position {
    pub chunk: ChunkIndex,
    pub tile: TileIndex,
}

impl Position {
    pub fn new(chunk_index: ChunkIndex, tile_index: TileIndex) -> (r: Self)
        ensures
            r == (Position { chunk: chunk_index, tile: tile_index }),
    {
        Position { chunk: chunk_index, tile: tile_index }
    }
}

impl Default for Position {
    /// The first tile of the first chunk.
    fn default() -> (r: Self)
        ensures
            r == (Position { chunk: ChunkIndex(0, 0), tile: TileIndex(0, 0) }),
    {
        Self::new(ChunkIndex(0, 0), TileIndex(0, 0))
    }
}

/// This component marks entities that belong to a running game.
#[derive(Default, Debug)]
pub struct IsIngameEntity;

/// This component is meant for entities that can be stored inside the player's inventory.
#[derive(Default, Debug)]
pub struct TagCarriable;

/// This component is meant for entities that can be bought or sold in the OreShop.
#[derive(Default, Debug)]
pub struct TagOreShopMerch;

/// This component is meant for entities that can be bought or sold in the PartsShop.
#[derive(Default, Debug)]
pub struct TagPartsShopMerch;

/// This component is meant for ground entites the player cannot see yet.
#[derive(Default, Debug)]
pub struct TagFogOfWar;

/// This component is meant for item entities.
#[derive(Default, Debug)]
pub struct TagItem;

} // verus!
