//! Chunks, tiles and the planet that holds them.
use vstd::prelude::*;

use std::collections::BTreeMap;
use vstd::std_specs::btree::spec_btree_map_iter;
use vstd::std_specs::iter::IteratorSpec;

use crate::entities::EntitySpriteRender;
use crate::key_order::{key_less, lemma_increasing_keys};
use crate::tiles::{random_tile, can_be_drawn, TileTypes};

verus! {

/// Problems with a chunk.
#[derive(PartialEq, Eq, Structural, Copy, Clone, Debug, Hash, PartialOrd, Ord)]
pub enum ChunkError {
    NotImplemented,
    IndexOutOfBounds,
    NotFound,
}

/// Problems with a tile.
#[derive(PartialEq, Eq, Structural, Copy, Clone, Debug, Hash, PartialOrd, Ord)]
pub enum TileError {
    NotImplemented,
    IndexOutOfBounds,
    SpriteRenderNotFound(EntitySpriteRender),
}

/// Errors of the game world.
#[derive(PartialEq, Eq, Structural, Copy, Clone, Debug, Hash, PartialOrd, Ord)]
pub enum GameWorldError {
    NotImplemented,
    ChunkProblem(ChunkError),
    TileProblem(TileError),
}

/// The index of a chunk in a planet, as (row, column).
/// Used to calculate the render-position of a chunk,
/// and to figure out which chunk the player currently resides in.
#[derive(PartialEq, Eq, Structural, Copy, Clone, Debug, Hash, PartialOrd, Ord)]
pub struct ChunkIndex(pub u64, pub u64);

/// The index of a tile in a chunk, as (row, column).
/// Used to calculate the render-position of a tile,
/// and to figure out which tile the player currently stands on.
#[derive(PartialEq, Eq, Structural, Copy, Clone, Debug, Hash, PartialOrd, Ord)]
pub struct TileIndex(pub u64, pub u64);

/// The identity of a tile entity in the entity store: its index and generation.
#[derive(PartialEq, Eq, Structural, Copy, Clone, Debug, Hash, PartialOrd, Ord)]
pub struct EntityId(pub u32, pub i32);

impl ChunkIndex {
    pub open spec fn key(self) -> (u64, u64) {
        (self.0, self.1)
    }
}

impl TileIndex {
    pub open spec fn key(self) -> (u64, u64) {
        (self.0, self.1)
    }
}

/// What the tile cell (column, row) of a position gives in a chunk of `chunk_dim` tiles.
/// A cell is `None` where the position lies before the chunk's first column or row.
pub open spec fn tile_from_cells(chunk_dim: (u64, u64), column: Option<u64>, row: Option<u64>)
    -> Result<TileIndex, GameWorldError>
{
    match (column, row) {
        (Some(c), Some(r)) => if tile_in_bounds(chunk_dim, TileIndex(r, c)) {
            Ok(TileIndex(r, c))
        } else {
            Err(GameWorldError::TileProblem(TileError::IndexOutOfBounds))
        },
        _ => Err(GameWorldError::TileProblem(TileError::IndexOutOfBounds)),
    }
}

/// What the chunk cell (column, row) of a position gives on a planet of `planet_dim` chunks.
/// A cell is `None` where the position lies before the planet's first column or row.
pub open spec fn chunk_from_cells(planet_dim: (u64, u64), column: Option<u64>, row: Option<u64>)
    -> Result<ChunkIndex, GameWorldError>
{
    match (column, row) {
        (Some(c), Some(r)) => match clamped_chunk(planet_dim, ChunkIndex(r, c)) {
            Some(clamped) => Ok(clamped),
            None => Err(GameWorldError::ChunkProblem(ChunkError::IndexOutOfBounds)),
        },
        _ => Err(GameWorldError::ChunkProblem(ChunkError::IndexOutOfBounds)),
    }
}

impl EntityId {
    pub open spec fn key(self) -> (u32, i32) {
        (self.0, self.1)
    }
}

/// What clamping a chunk index to a planet of `planet_dim` chunks gives:
/// rows beyond the planet are refused, columns wrap around.
pub open spec fn clamped_chunk(planet_dim: (u64, u64), index: ChunkIndex) -> Option<ChunkIndex> {
    if index.0 >= planet_dim.0 {
        None
    } else if index.1 >= planet_dim.1 {
        Some(ChunkIndex(index.0, (index.1 % planet_dim.1) as u64))
    } else {
        Some(index)
    }
}

/// Whether a tile index lies inside a chunk of `chunk_dim` tiles.
pub open spec fn tile_in_bounds(chunk_dim: (u64, u64), index: TileIndex) -> bool {
    index.0 < chunk_dim.0 && index.1 < chunk_dim.1
}

/// Whether chunk indices of a planet of `planet_dim` chunks can be clamped without
/// dividing by zero: a planet with rows has columns.
pub open spec fn clampable(planet_dim: (u64, u64)) -> bool {
    planet_dim.0 > 0 ==> planet_dim.1 > 0
}

/// Whether clamping `index` to a planet of `planet_dim` chunks is defined: an index inside
/// the planet's rows needs the planet to have columns to wrap around.
pub open spec fn clamp_defined(planet_dim: (u64, u64), index: ChunkIndex) -> bool {
    index.0 < planet_dim.0 ==> planet_dim.1 > 0
}

/// Small patches of tile entities of a planet.
/// Maps each tile index to the tile's kind and entity, and each entity back to its index.
pub struct Chunk {
    tile_index: BTreeMap<(u32, i32), TileIndex>,
    tile_entities: BTreeMap<(u64, u64), EntityId>,
    tile_type: BTreeMap<(u64, u64), TileTypes>,
}

impl Chunk {
    /// The kind of each tile, by tile index.
    pub closed spec fn types(&self) -> Map<(u64, u64), TileTypes> {
        self.tile_type@
    }

    /// The entity of each tile, by tile index.
    pub closed spec fn entities(&self) -> Map<(u64, u64), EntityId> {
        self.tile_entities@
    }

    /// The tile index of each tile entity.
    pub closed spec fn indices(&self) -> Map<(u32, i32), TileIndex> {
        self.tile_index@
    }

    /// The three maps of the chunk agree: every tile index has a kind exactly when it has
    /// an entity, and the entity of a tile and the index of an entity are inverse.
    pub open spec fn tiles_consistent(&self) -> bool {
        &&& self.types().dom() == self.entities().dom()
        &&& forall|k: (u64, u64)| #[trigger] self.entities().contains_key(k) ==> {
            &&& self.indices().contains_key(self.entities()[k].key())
            &&& self.indices()[self.entities()[k].key()].key() == k
        }
        &&& forall|e: (u32, i32)| #[trigger] self.indices().contains_key(e) ==> {
            &&& self.entities().contains_key(self.indices()[e].key())
            &&& self.entities()[self.indices()[e].key()].key() == e
        }
    }

    /// A chunk without tiles.
    pub fn empty() -> (r: Chunk)
        ensures
            r.tiles_consistent(),
            r.types() == Map::<(u64, u64), TileTypes>::empty(),
            r.entities() == Map::<(u64, u64), EntityId>::empty(),
            r.indices() == Map::<(u32, i32), TileIndex>::empty(),
    {
        let r = Chunk {
            tile_index: BTreeMap::new(),
            tile_entities: BTreeMap::new(),
            tile_type: BTreeMap::new(),
        };
        proof {
            assert(r.types().dom() =~= r.entities().dom());
        }
        r
    }

    /// The kind of the tile at the given index, if the chunk has one there.
    pub fn get_tile_type(&mut self, index: TileIndex) -> (r: Option<TileTypes>)
        ensures
            *final(self) == *old(self),
            r == if old(self).types().contains_key(index.key()) {
                Some(old(self).types()[index.key()])
            } else {
                None::<TileTypes>
            },
    {
        match self.tile_type.get(&(index.0, index.1)) {
            Some(t) => Some(*t),
            None => None,
        }
    }

    /// The entity of the tile at the given index, if the chunk has one there.
    pub fn get_tile_entity(&mut self, index: TileIndex) -> (r: Option<EntityId>)
        ensures
            *final(self) == *old(self),
            r == if old(self).entities().contains_key(index.key()) {
                Some(old(self).entities()[index.key()])
            } else {
                None::<EntityId>
            },
    {
        match self.tile_entities.get(&(index.0, index.1)) {
            Some(e) => Some(*e),
            None => None,
        }
    }

    /// The tile index of the given entity, if it is a tile of this chunk.
    pub fn get_tile_index(&mut self, tile: EntityId) -> (r: Option<TileIndex>)
        ensures
            *final(self) == *old(self),
            r == if old(self).indices().contains_key(tile.key()) {
                Some(old(self).indices()[tile.key()])
            } else {
                None::<TileIndex>
            },
    {
        match self.tile_index.get(&(tile.0, tile.1)) {
            Some(t) => Some(*t),
            None => None,
        }
    }

    /// The kinds of all tiles of the chunk, each with its index.
    pub fn iter_tiletypes(&self) -> (r: Vec<(TileIndex, TileTypes)>)
        ensures
            forall|i: int, j: int| 0 <= i < j < r@.len() ==> key_less(r@[i].0.key(), r@[j].0.key()),
            r@.len() == self.types().dom().len(),
            forall|i: int| 0 <= i < r@.len() ==> {
                &&& self.types().contains_key(#[trigger] r@[i].0.key())
                &&& self.types()[r@[i].0.key()] == r@[i].1
            },
            forall|k: (u64, u64)| #[trigger] self.types().contains_key(k) ==>
                exists|i: int| 0 <= i < r@.len() && r@[i].0.key() == k,
    {
        let mut r: Vec<(TileIndex, TileTypes)> = Vec::new();
        let ghost items = spec_btree_map_iter(&self.tile_type).remaining();
        for kv in it: self.tile_type.iter()
            invariant
                it.seq() == items,
                r@.len() == it.index(),
                forall|i: int| 0 <= i < it.index() ==> {
                    &&& (#[trigger] r@[i]).0.key() == *it.seq()[i].0
                    &&& r@[i].1 == *it.seq()[i].1
                },
        {
            let (k, v) = kv;
            r.push((TileIndex(k.0, k.1), *v));
        }
        assert forall|k: (u64, u64)| #[trigger] self.types().contains_key(k) implies
            exists|i: int| 0 <= i < r@.len() && r@[i].0.key() == k by {
            assert(items.contains((&k, &self.tile_type@[k])));
            let i = choose|i: int| 0 <= i < items.len() && items[i] == (&k, &self.tile_type@[k]);
            assert(r@[i].0.key() == k);
        }
        proof {
            let keys = items.map_values(|kv: (&(u64, u64), &TileTypes)| *kv.0);
            lemma_increasing_keys(keys);
            assert forall|i: int, j: int| 0 <= i < j < r@.len() implies key_less(r@[i].0.key(), r@[j].0.key()) by {
                assert(keys[i] == *items[i].0);
                assert(keys[j] == *items[j].0);
            }
        }
        r
    }
}


impl Chunk {
    /// The entities of all tiles of the chunk, each with its tile index.
    pub fn iter_tile_entities(&self) -> (r: Vec<(TileIndex, EntityId)>)
        ensures
            forall|i: int, j: int| 0 <= i < j < r@.len() ==> key_less(r@[i].0.key(), r@[j].0.key()),
            r@.len() == self.entities().dom().len(),
            forall|i: int| 0 <= i < r@.len() ==> {
                &&& self.entities().contains_key(#[trigger] r@[i].0.key())
                &&& self.entities()[r@[i].0.key()] == r@[i].1
            },
            forall|k: (u64, u64)| #[trigger] self.entities().contains_key(k) ==>
                exists|i: int| 0 <= i < r@.len() && r@[i].0.key() == k,
    {
        let mut r: Vec<(TileIndex, EntityId)> = Vec::new();
        let ghost items = spec_btree_map_iter(&self.tile_entities).remaining();
        for kv in it: self.tile_entities.iter()
            invariant
                it.seq() == items,
                r@.len() == it.index(),
                forall|i: int| 0 <= i < it.index() ==> {
                    &&& (#[trigger] r@[i]).0.key() == *it.seq()[i].0
                    &&& r@[i].1 == *it.seq()[i].1
                },
        {
            let (k, v) = kv;
            r.push((TileIndex(k.0, k.1), *v));
        }
        assert forall|k: (u64, u64)| #[trigger] self.entities().contains_key(k) implies
            exists|i: int| 0 <= i < r@.len() && r@[i].0.key() == k by {
            assert(items.contains((&k, &self.tile_entities@[k])));
            let i = choose|i: int| 0 <= i < items.len() && items[i] == (&k, &self.tile_entities@[k]);
            assert(r@[i].0.key() == k);
        }
        proof {
            let keys = items.map_values(|kv: (&(u64, u64), &EntityId)| *kv.0);
            lemma_increasing_keys(keys);
            assert forall|i: int, j: int| 0 <= i < j < r@.len() implies key_less(r@[i].0.key(), r@[j].0.key()) by {
                assert(keys[i] == *items[i].0);
                assert(keys[j] == *items[j].0);
            }
        }
        r
    }

    /// The given tile index is kept if it lies inside the planet's chunk-dim,
    /// and refused otherwise.
    pub fn clamp_tile_index(planet: &Planet, index: TileIndex) -> (r: Result<TileIndex, GameWorldError>)
        ensures
            tile_in_bounds(planet.chunk_dims(), index) ==> r == Ok::<TileIndex, GameWorldError>(index),
            !tile_in_bounds(planet.chunk_dims(), index) ==> r == Err::<TileIndex, GameWorldError>(
                GameWorldError::TileProblem(TileError::IndexOutOfBounds)),
    {
        let rv = index;
        if rv.0 >= planet.chunk_dim.0 || rv.1 >= planet.chunk_dim.1 {
            Err(GameWorldError::TileProblem(TileError::IndexOutOfBounds))
        } else {
            Ok(rv)
        }
    }

    /// Decides the kind of a new tile of chunk `chunk_id` at `tile_id`: the given kind if
    /// there is one, `Empty` in the upmost row of chunks, and a kind drawn for the chunk's
    /// depth section otherwise. Tiles outside the chunk-dim are refused.
    pub fn create_tile_type(
        planet: &Planet,
        chunk_id: ChunkIndex,
        tile_id: TileIndex,
        tile_type_opt: Option<TileTypes>,
        depth_section: usize,
    ) -> (r: Result<TileTypes, GameWorldError>)
        ensures
            !tile_in_bounds(planet.chunk_dims(), tile_id) ==> r == Err::<TileTypes, GameWorldError>(
                GameWorldError::TileProblem(TileError::IndexOutOfBounds)),
            tile_in_bounds(planet.chunk_dims(), tile_id) ==> (r matches Ok(t) && match tile_type_opt {
                Some(given) => t == given,
                None => if chunk_id.0 > 0 {
                    can_be_drawn(depth_section, t)
                } else {
                    t == TileTypes::Empty
                },
            }),
    {
        match Self::clamp_tile_index(planet, tile_id) {
            Ok(_tile_id) => {
                let tile_type = match tile_type_opt {
                    Some(val) => val,
                    None => {
                        if chunk_id.0 > 0 {
                            random_tile(depth_section)
                        } else {
                            // The upmost chunk is always empty.
                            TileTypes::Empty
                        }
                    },
                };
                Ok(tile_type)
            },
            Err(e) => Err(e),
        }
    }

    /// Records a created tile: its kind and entity under its index, and its index under
    /// its entity. A failed creation leaves the chunk as it is and passes the error on.
    pub fn add_tile(
        chunk: &mut Chunk,
        tile_id: TileIndex,
        created: Result<(TileTypes, EntityId), GameWorldError>,
    ) -> (r: Result<(), GameWorldError>)
        ensures
            match created {
                Ok((tile_type, entity)) => {
                    &&& r is Ok
                    &&& final(chunk).types() == old(chunk).types().insert(tile_id.key(), tile_type)
                    &&& final(chunk).entities() == old(chunk).entities().insert(tile_id.key(), entity)
                    &&& final(chunk).indices() == old(chunk).indices().insert(entity.key(), tile_id)
                },
                Err(e) => r == Err::<(), GameWorldError>(e) && *final(chunk) == *old(chunk),
            },
            old(chunk).tiles_consistent() && (created matches Ok((_t, entity))
                && !old(chunk).entities().contains_key(tile_id.key())
                && !old(chunk).indices().contains_key(entity.key()))
                ==> final(chunk).tiles_consistent(),
    {
        match created {
            Ok((tile_type, entity)) => {
                let ghost before = *chunk;
                chunk.tile_type.insert((tile_id.0, tile_id.1), tile_type);
                chunk.tile_index.insert((entity.0, entity.1), tile_id);
                chunk.tile_entities.insert((tile_id.0, tile_id.1), entity);
                proof {
                    if before.tiles_consistent() && !before.entities().contains_key(tile_id.key())
                        && !before.indices().contains_key(entity.key()) {
                        lemma_add_tile_keeps_tiles_consistent(before, *chunk, tile_id, tile_type, entity);
                    }
                }
                Ok(())
            },
            Err(e) => Err(e),
        }
    }

    /// The tile indices of a chunk of `chunk_dim` tiles in the order they are created:
    /// row by row, each row from the first column to the last.
    pub fn layout(chunk_dim: (u64, u64)) -> (r: Vec<TileIndex>)
        ensures
            r@.len() == chunk_dim.0 * chunk_dim.1,
            forall|i: int| 0 <= i < r@.len() ==> #[trigger] r@[i] == layout_tile(chunk_dim, i),
    {
        let mut r: Vec<TileIndex> = Vec::new();
        let mut y: u64 = 0;
        while y < chunk_dim.0
            invariant
                y <= chunk_dim.0,
                r@.len() == y * chunk_dim.1,
                forall|i: int| 0 <= i < r@.len() ==> #[trigger] r@[i] == TileIndex(
                    (i / chunk_dim.1 as int) as u64, (i % chunk_dim.1 as int) as u64),
            decreases chunk_dim.0 - y,
        {
            let mut x: u64 = 0;
            while x < chunk_dim.1
                invariant
                    y < chunk_dim.0,
                    x <= chunk_dim.1,
                    r@.len() == y * chunk_dim.1 + x,
                    forall|i: int| 0 <= i < r@.len() ==> #[trigger] r@[i] == TileIndex(
                        (i / chunk_dim.1 as int) as u64, (i % chunk_dim.1 as int) as u64),
                decreases chunk_dim.1 - x,
            {
                proof {
                    let n = y * chunk_dim.1 + x;
                    vstd::arithmetic::div_mod::lemma_fundamental_div_mod_converse(
                        n as int, chunk_dim.1 as int, y as int, x as int);
                }
                r.push(TileIndex(y, x));
                x = x + 1;
            }
            proof {
                vstd::arithmetic::mul::lemma_mul_is_distributive_add_other_way(
                    chunk_dim.1 as int, y as int, 1);
            }
            y = y + 1;
        }
        proof {
            vstd::arithmetic::mul::lemma_mul_is_commutative(chunk_dim.0 as int, chunk_dim.1 as int);
        }
        r
    }
}

/// The planet a player resides on.
/// Consists of individual chunks of tile entities; only a small number is loaded at a time.
pub struct Planet {
    /// The dimension of a planet expressed in the count of chunks, as (rows, columns).
    pub planet_dim: (u64, u64),
    /// The dimension of a chunk expressed in the count of tiles, as (rows, columns).
    pub chunk_dim: (u64, u64),
    chunks: BTreeMap<(u64, u64), Chunk>,
}

impl Planet {
    /// The planet's dimension in chunks, as (rows, columns).
    pub closed spec fn planet_dims(&self) -> (u64, u64) {
        self.planet_dim
    }

    /// The dimension of its chunks in tiles, as (rows, columns).
    pub closed spec fn chunk_dims(&self) -> (u64, u64) {
        self.chunk_dim
    }

    /// The loaded chunks, by chunk index.
    pub closed spec fn chunk_map(&self) -> Map<(u64, u64), Chunk> {
        self.chunks@
    }

    /// What fetching the chunk at `index` gives: the index is clamped and looked up; an
    /// index beyond the planet's rows, or one where no chunk is loaded, is not found.
    pub open spec fn chunk_at(&self, index: ChunkIndex) -> Result<Chunk, GameWorldError> {
        match clamped_chunk(self.planet_dims(), index) {
            Some(c) => if self.chunk_map().contains_key(c.key()) {
                Ok(self.chunk_map()[c.key()])
            } else {
                Err(GameWorldError::ChunkProblem(ChunkError::NotFound))
            },
            None => Err(GameWorldError::ChunkProblem(ChunkError::NotFound)),
        }
    }

    /// A planet of `planet_dim` chunks of `chunk_dim` tiles with no chunk loaded.
    pub fn new(planet_dim: (u64, u64), chunk_dim: (u64, u64)) -> (r: Planet)
        ensures
            r.planet_dims() == planet_dim,
            r.chunk_dims() == chunk_dim,
            r.chunk_map() == Map::<(u64, u64), Chunk>::empty(),
    {
        Planet { planet_dim, chunk_dim, chunks: BTreeMap::new() }
    }

    /// Whether chunk indices can be clamped to this planet: a planet with rows has columns.
    pub fn is_clampable(&self) -> (r: bool)
        ensures
            r == clampable(self.planet_dims()),
    {
        self.planet_dim.0 == 0 || self.planet_dim.1 > 0
    }

    /// Tries to fetch a chunk. If the given index exceeds the planet-dim bounds, it gets
    /// clamped. Returns a reference to the chunk if one is loaded there, and the error
    /// `ChunkError::NotFound` otherwise (then try `new_chunk()`); an index beyond the
    /// planet's rows is not found either.
    pub fn get_chunk(&self, index: ChunkIndex) -> (r: Result<Option<&Chunk>, GameWorldError>)
        requires
            clamp_defined(self.planet_dims(), index),
        ensures
            match self.chunk_at(index) {
                Ok(c) => r matches Ok(Some(found)) && *found == c,
                Err(e) => r == Err::<Option<&Chunk>, GameWorldError>(e),
            },
    {
        match Self::clamp_chunk_index(self, index) {
            Ok(clamped_index) => match self.chunks.get(&(clamped_index.0, clamped_index.1)) {
                Some(chunk) => Ok(Some(chunk)),
                None => Err(GameWorldError::ChunkProblem(ChunkError::NotFound)),
            },
            Err(_e) => Err(GameWorldError::ChunkProblem(ChunkError::NotFound)),
        }
    }

    /// The kind of a tile of a chunk; no chunk is consulted, so nothing is found.
    pub fn get_tiletype(_chunk: ChunkIndex, _tile: TileIndex) -> (r: Option<TileTypes>)
        ensures
            r is None,
    {
        None
    }

    /// The given chunk index gets clamped to the planet-dim by wrapping it in x-direction.
    /// Fails if the index is out of bounds in y-direction.
    pub fn clamp_chunk_index(planet: &Planet, index: ChunkIndex) -> (r: Result<ChunkIndex, GameWorldError>)
        requires
            clamp_defined(planet.planet_dims(), index),
        ensures
            match clamped_chunk(planet.planet_dims(), index) {
                Some(c) => r == Ok::<ChunkIndex, GameWorldError>(c),
                None => r == Err::<ChunkIndex, GameWorldError>(GameWorldError::ChunkProblem(ChunkError::IndexOutOfBounds)),
            },
    {
        let mut rv = index;
        if rv.0 >= planet.planet_dim.0 {
            Err(GameWorldError::ChunkProblem(ChunkError::IndexOutOfBounds))
        } else {
            if rv.1 >= planet.planet_dim.1 {
                rv.1 = rv.1 % planet.planet_dim.1;
            }
            Ok(rv)
        }
    }

    /// Stores a newly created chunk under the clamped `chunk_id`, replacing any chunk there.
    /// An index beyond the planet's rows is refused and the chunk dropped.
    pub fn new_chunk(&mut self, chunk_id: ChunkIndex, chunk: Chunk) -> (r: Result<ChunkIndex, GameWorldError>)
        requires
            clamp_defined(old(self).planet_dims(), chunk_id),
        ensures
            final(self).planet_dims() == old(self).planet_dims(),
            final(self).chunk_dims() == old(self).chunk_dims(),
            match clamped_chunk(old(self).planet_dims(), chunk_id) {
                Some(c) => r == Ok::<ChunkIndex, GameWorldError>(c)
                    && final(self).chunk_map() == old(self).chunk_map().insert(c.key(), chunk),
                None => r == Err::<ChunkIndex, GameWorldError>(GameWorldError::ChunkProblem(ChunkError::IndexOutOfBounds))
                    && final(self).chunk_map() == old(self).chunk_map(),
            },
    {
        match Self::clamp_chunk_index(self, chunk_id) {
            Ok(clamped_id) => {
                self.chunks.insert((clamped_id.0, clamped_id.1), chunk);
                Ok(clamped_id)
            },
            Err(e) => Err(e),
        }
    }

    /// Loads chunk `chunk_id` from its saved tiles `tiles`, where `entities[i]` is the
    /// entity created for saved tile `i` or the error of its creation. The chunk holding
    /// exactly the saved tiles is stored under `chunk_id` as it is, replacing any chunk
    /// there. If a saved tile lies outside the chunk-dim or has no entity, nothing is
    /// stored and the first such failure is returned.
    pub fn load_chunk(
        &mut self,
        chunk_id: ChunkIndex,
        tiles: &Vec<(TileIndex, TileTypes)>,
        entities: &Vec<Result<EntityId, GameWorldError>>,
    ) -> (r: Result<(), GameWorldError>)
        requires
            entities@.len() == tiles@.len(),
        ensures
            final(self).planet_dims() == old(self).planet_dims(),
            final(self).chunk_dims() == old(self).chunk_dims(),
            match first_load_failure(old(self).chunk_dims(), tiles@, entities@, tiles@.len() as int) {
                Some(e) => r == Err::<(), GameWorldError>(e) && final(self).chunk_map() == old(self).chunk_map(),
                None => {
                    &&& r is Ok
                    &&& final(self).chunk_map().contains_key(chunk_id.key())
                    &&& final(self).chunk_map() == old(self).chunk_map().insert(
                        chunk_id.key(), final(self).chunk_map()[chunk_id.key()])
                    &&& final(self).chunk_map()[chunk_id.key()].holds(spawned(tiles@, entities@, tiles@.len() as int))
                    &&& final(self).chunk_map()[chunk_id.key()].within(old(self).chunk_dims())
                },
            },
    {
        match Chunk::from_saved(self.chunk_dim, tiles, entities) {
            Ok(chunk) => {
                self.chunks.insert((chunk_id.0, chunk_id.1), chunk);
                Ok(())
            },
            Err(e) => Err(e),
        }
    }

    /// Removes the chunk stored under `key`, if any, and hands it back.
    pub fn remove_chunk(&mut self, key: &ChunkIndex) -> (r: Option<Chunk>)
        ensures
            final(self).planet_dims() == old(self).planet_dims(),
            final(self).chunk_dims() == old(self).chunk_dims(),
            final(self).chunk_map() == old(self).chunk_map().remove(key.key()),
            r == if old(self).chunk_map().contains_key(key.key()) {
                Some(old(self).chunk_map()[key.key()])
            } else {
                None::<Chunk>
            },
    {
        self.chunks.remove(&(key.0, key.1))
    }

    /// Removes the chunk at `index` from the planet without saving it, and hands back
    /// its tile entities, each with its tile index, for the caller to destroy.
    /// Gives `None` if no chunk is stored there.
    #[verifier::spinoff_prover]
    pub fn delete_chunk(&mut self, index: ChunkIndex) -> (r: Option<Vec<(TileIndex, EntityId)>>)
        ensures
            final(self).planet_dims() == old(self).planet_dims(),
            final(self).chunk_dims() == old(self).chunk_dims(),
            final(self).chunk_map() == old(self).chunk_map().remove(index.key()),
            old(self).chunk_map().contains_key(index.key()) <==> r is Some,
            r matches Some(tiles) ==> {
                let chunk = old(self).chunk_map()[index.key()];
                &&& tiles@.len() == chunk.entities().dom().len()
                &&& forall|i: int| 0 <= i < tiles@.len() ==> {
                    &&& chunk.entities().contains_key(#[trigger] tiles@[i].0.key())
                    &&& chunk.entities()[tiles@[i].0.key()] == tiles@[i].1
                }
                &&& forall|k: (u64, u64)| #[trigger] chunk.entities().contains_key(k) ==>
                    exists|i: int| 0 <= i < tiles@.len() && tiles@[i].0.key() == k
                &&& forall|i: int, j: int| 0 <= i < j < tiles@.len() ==> key_less(tiles@[i].0.key(), tiles@[j].0.key())
            },
    {
        match self.chunks.remove(&(index.0, index.1)) {
            Some(chunk) => Some(chunk.iter_tile_entities()),
            None => None,
        }
    }

    /// The indices of all loaded chunks.
    pub fn iter_chunks(&self) -> (r: Vec<ChunkIndex>)
        ensures
            forall|i: int, j: int| 0 <= i < j < r@.len() ==> key_less(r@[i].key(), r@[j].key()),
            r@.len() == self.chunk_map().dom().len(),
            forall|i: int| 0 <= i < r@.len() ==> self.chunk_map().contains_key(#[trigger] r@[i].key()),
            forall|k: (u64, u64)| #[trigger] self.chunk_map().contains_key(k) ==>
                exists|i: int| 0 <= i < r@.len() && r@[i].key() == k,
            forall|i: int, j: int| 0 <= i < j < r@.len() ==> r@[i] != r@[j],
    {
        let mut r: Vec<ChunkIndex> = Vec::new();
        let ghost items = spec_btree_map_iter(&self.chunks).remaining();
        for kv in it: self.chunks.iter()
            invariant
                it.seq() == items,
                items.no_duplicates(),
                r@.len() == it.index(),
                forall|i: int| 0 <= i < it.index() ==> (#[trigger] r@[i]).key() == *it.seq()[i].0,
        {
            let (k, _v) = kv;
            r.push(ChunkIndex(k.0, k.1));
        }
        assert forall|k: (u64, u64)| #[trigger] self.chunk_map().contains_key(k) implies
            exists|i: int| 0 <= i < r@.len() && r@[i].key() == k by {
            assert(items.contains((&k, &self.chunks@[k])));
            let i = choose|i: int| 0 <= i < items.len() && items[i] == (&k, &self.chunks@[k]);
            assert(r@[i].key() == k);
        }
        assert forall|i: int, j: int| 0 <= i < j < r@.len() implies r@[i] != r@[j] by {
            if r@[i] == r@[j] {
                assert(self.chunks@.contains_key(*items[i].0));
                assert(*items[i].1 == self.chunks@[*items[i].0]);
                assert(*items[j].1 == self.chunks@[*items[j].0]);
                assert(items[i] == items[j]);
            }
        }
        proof {
            let keys = items.map_values(|kv: (&(u64, u64), &Chunk)| *kv.0);
            lemma_increasing_keys(keys);
            assert forall|i: int, j: int| 0 <= i < j < r@.len() implies key_less(r@[i].key(), r@[j].key()) by {
                assert(keys[i] == *items[i].0);
                assert(keys[j] == *items[j].0);
            }
        }
        r
    }

    /// Removes all chunks from the planet and hands them back, each with its index;
    /// used when the game is saved and left.
    pub fn drain_chunks(&mut self) -> (r: Vec<(ChunkIndex, Chunk)>)
        ensures
            final(self).planet_dims() == old(self).planet_dims(),
            final(self).chunk_dims() == old(self).chunk_dims(),
            final(self).chunk_map() == Map::<(u64, u64), Chunk>::empty(),
            r@.len() == old(self).chunk_map().dom().len(),
            forall|i: int| 0 <= i < r@.len() ==> {
                &&& old(self).chunk_map().contains_key(#[trigger] r@[i].0.key())
                &&& old(self).chunk_map()[r@[i].0.key()] == r@[i].1
            },
            forall|k: (u64, u64)| #[trigger] old(self).chunk_map().contains_key(k) ==>
                exists|i: int| 0 <= i < r@.len() && r@[i].0.key() == k,
            forall|i: int, j: int| 0 <= i < j < r@.len() ==> key_less(r@[i].0.key(), r@[j].0.key()),
    {
        let ghost old_map = self.chunks@;
        let indices = self.iter_chunks();
        let mut r: Vec<(ChunkIndex, Chunk)> = Vec::new();
        let mut n: usize = 0;
        while n < indices.len()
            invariant
                n <= indices@.len(),
                indices@.len() == old_map.dom().len(),
                forall|i: int| 0 <= i < indices@.len() ==> old_map.contains_key(#[trigger] indices@[i].key()),
                forall|k: (u64, u64)| #[trigger] old_map.contains_key(k) ==>
                    exists|i: int| 0 <= i < indices@.len() && indices@[i].key() == k,
                forall|i: int, j: int| 0 <= i < j < indices@.len() ==> indices@[i] != indices@[j],
                forall|i: int, j: int| 0 <= i < j < indices@.len() ==> key_less(indices@[i].key(), indices@[j].key()),
                r@.len() == n,
                forall|i: int| 0 <= i < n ==> (#[trigger] r@[i]).0 == indices@[i]
                    && old_map[indices@[i].key()] == r@[i].1,
                forall|k: (u64, u64)| #[trigger] self.chunks@.contains_key(k) <==>
                    (old_map.contains_key(k) && forall|i: int| 0 <= i < n ==> indices@[i].key() != k),
                forall|k: (u64, u64)| #[trigger] self.chunks@.contains_key(k) ==> self.chunks@[k] == old_map[k],
                self.planet_dims() == old(self).planet_dims(),
                self.chunk_dims() == old(self).chunk_dims(),
                old_map == old(self).chunks@,
            decreases indices@.len() - n,
        {
            let index = indices[n];
            assert(self.chunks@.contains_key(index.key())) by {
                assert forall|i: int| 0 <= i < n implies indices@[i].key() != index.key() by {
                    assert(indices@[i] != indices@[n as int]);
                }
            }
            match self.chunks.remove(&(index.0, index.1)) {
                Some(chunk) => {
                    r.push((index, chunk));
                },
                None => {},
            }
            n = n + 1;
        }
        assert(self.chunks@ =~= Map::<(u64, u64), Chunk>::empty()) by {
            assert forall|k: (u64, u64)| !self.chunks@.contains_key(k) by {
                if old_map.contains_key(k) {
                    let i = choose|i: int| 0 <= i < indices@.len() && indices@[i].key() == k;
                }
            }
        }
        assert forall|k: (u64, u64)| #[trigger] old(self).chunk_map().contains_key(k) implies
            exists|i: int| 0 <= i < r@.len() && r@[i].0.key() == k by {
            let i = choose|i: int| 0 <= i < indices@.len() && indices@[i].key() == k;
            assert(r@[i].0.key() == k);
        }
        r
    }

    /// Removes all chunks from the planet.
    pub fn clear_chunks(&mut self)
        ensures
            final(self).planet_dims() == old(self).planet_dims(),
            final(self).chunk_dims() == old(self).chunk_dims(),
            final(self).chunk_map() == Map::<(u64, u64), Chunk>::empty(),
    {
        self.chunks.clear();
    }

    /// The number that names the savegame file of chunk `chunk_id`:
    /// its column times the planet's row count, plus its row.
    pub fn chunk_file_number(&self, chunk_id: ChunkIndex) -> (r: u64)
        requires
            chunk_id.1 * self.planet_dims().0 + chunk_id.0 <= u64::MAX,
        ensures
            r == chunk_id.1 * self.planet_dims().0 + chunk_id.0,
    {
        chunk_id.1 * self.planet_dim.0 + chunk_id.0
    }
}


impl TileIndex {
    /// The tile index of a position in a chunk, from the position's tile cell in that chunk
    /// (`None` for a cell before the chunk's first column or row). Cells outside the planet's
    /// chunk-dim are refused.
    pub fn from_cells(planet: &Planet, column: Option<u64>, row: Option<u64>) -> (r: Result<TileIndex, GameWorldError>)
        ensures
            r == tile_from_cells(planet.chunk_dims(), column, row),
    {
        match (column, row) {
            (Some(tile_id_x), Some(tile_id_y)) => {
                if tile_id_x >= planet.chunk_dim.1 || tile_id_y >= planet.chunk_dim.0 {
                    Err(GameWorldError::TileProblem(TileError::IndexOutOfBounds))
                } else {
                    Ok(TileIndex(tile_id_y, tile_id_x))
                }
            },
            _ => Err(GameWorldError::TileProblem(TileError::IndexOutOfBounds)),
        }
    }
}

impl ChunkIndex {
    /// The chunk index of a position, from the position's chunk cell on the planet
    /// (`None` for a cell before the planet's first column or row). The index is clamped
    /// to the planet: columns wrap, rows beyond the planet are refused.
    pub fn from_cells(planet: &Planet, column: Option<u64>, row: Option<u64>) -> (r: Result<ChunkIndex, GameWorldError>)
        requires
            column is Some ==> (row matches Some(y) ==> clamp_defined(planet.planet_dims(), ChunkIndex(y, 0))),
        ensures
            r == chunk_from_cells(planet.planet_dims(), column, row),
    {
        match (column, row) {
            (Some(chunk_x), Some(chunk_y)) => {
                let chunk_id = ChunkIndex(chunk_y, chunk_x);
                match Planet::clamp_chunk_index(planet, chunk_id) {
                    Ok(chunk_id) => Ok(chunk_id),
                    Err(e) => Err(e),
                }
            },
            _ => Err(GameWorldError::ChunkProblem(ChunkError::IndexOutOfBounds)),
        }
    }
}

/// Clamping a chunk index gives an index inside the planet, which clamping keeps as it
/// is, and whose column is the given column wrapped around the planet's width.
pub proof fn lemma_clamp_chunk_index(planet_dim: (u64, u64), index: ChunkIndex)
    requires
        clamp_defined(planet_dim, index),
    ensures
        index.0 < planet_dim.0 <==> clamped_chunk(planet_dim, index) is Some,
        clamped_chunk(planet_dim, index) matches Some(c) ==> {
            &&& c.0 == index.0
            &&& c.1 == index.1 % planet_dim.1
            &&& c.0 < planet_dim.0
            &&& c.1 < planet_dim.1
            &&& clamped_chunk(planet_dim, c) == Some(c)
        },
{
    if index.0 < planet_dim.0 && index.1 < planet_dim.1 {
        vstd::arithmetic::div_mod::lemma_small_mod(index.1 as nat, planet_dim.1 as nat);
    }
}

/// After a chunk is stored with `new_chunk`, fetching any index that clamps to the same
/// chunk finds it.
pub proof fn lemma_get_chunk_after_new_chunk(
    before: Planet,
    after: Planet,
    chunk_id: ChunkIndex,
    chunk: Chunk,
    query: ChunkIndex,
)
    requires
        after.planet_dims() == before.planet_dims(),
        clamped_chunk(before.planet_dims(), chunk_id) matches Some(c)
            && after.chunk_map() == before.chunk_map().insert(c.key(), chunk),
        clamped_chunk(before.planet_dims(), query) == clamped_chunk(before.planet_dims(), chunk_id),
    ensures
        after.chunk_at(query) == Ok::<Chunk, GameWorldError>(chunk),
{
}

/// After a chunk read back from a savegame is stored with `load_chunk` under an index
/// inside the planet, fetching that index finds it.
pub proof fn lemma_get_chunk_after_load_chunk(before: Planet, after: Planet, chunk_id: ChunkIndex, chunk: Chunk)
    requires
        after.planet_dims() == before.planet_dims(),
        after.chunk_map() == before.chunk_map().insert(chunk_id.key(), chunk),
        clamped_chunk(before.planet_dims(), chunk_id) == Some(chunk_id),
    ensures
        after.chunk_at(chunk_id) == Ok::<Chunk, GameWorldError>(chunk),
{
}

/// After the chunk at an index inside the planet is deleted, fetching that index finds
/// no chunk: it is not found.
pub proof fn lemma_get_chunk_after_delete_chunk(before: Planet, after: Planet, index: ChunkIndex)
    requires
        after.planet_dims() == before.planet_dims(),
        clamped_chunk(before.planet_dims(), index) == Some(index),
        after.chunk_map() == before.chunk_map().remove(index.key()),
    ensures
        after.chunk_at(index) == Err::<Chunk, GameWorldError>(GameWorldError::ChunkProblem(ChunkError::NotFound)),
{
}

/// A tile recorded with `add_tile` is found by its index, both its kind and its entity,
/// and its index is found by its entity.
pub proof fn lemma_tile_found_after_add_tile(
    before: Chunk,
    after: Chunk,
    tile_id: TileIndex,
    tile_type: TileTypes,
    entity: EntityId,
)
    requires
        after.types() == before.types().insert(tile_id.key(), tile_type),
        after.entities() == before.entities().insert(tile_id.key(), entity),
        after.indices() == before.indices().insert(entity.key(), tile_id),
    ensures
        after.types().contains_key(tile_id.key()) && after.types()[tile_id.key()] == tile_type,
        after.entities().contains_key(tile_id.key()) && after.entities()[tile_id.key()] == entity,
        after.indices().contains_key(entity.key()) && after.indices()[entity.key()] == tile_id,
{
}

/// Recording a new tile, whose index and entity the chunk does not hold yet, keeps the
/// chunk's three maps in agreement.
pub proof fn lemma_add_tile_keeps_tiles_consistent(
    before: Chunk,
    after: Chunk,
    tile_id: TileIndex,
    tile_type: TileTypes,
    entity: EntityId,
)
    requires
        before.tiles_consistent(),
        !before.entities().contains_key(tile_id.key()),
        !before.indices().contains_key(entity.key()),
        after.types() == before.types().insert(tile_id.key(), tile_type),
        after.entities() == before.entities().insert(tile_id.key(), entity),
        after.indices() == before.indices().insert(entity.key(), tile_id),
    ensures
        after.tiles_consistent(),
{
    assert(after.types().dom() =~= after.entities().dom());
    assert forall|k: (u64, u64)| #[trigger] after.entities().contains_key(k) implies {
        &&& after.indices().contains_key(after.entities()[k].key())
        &&& after.indices()[after.entities()[k].key()].key() == k
    } by {
        if k != tile_id.key() {
            assert(before.entities().contains_key(k));
            assert(before.indices().contains_key(before.entities()[k].key()));
        }
    }
    assert forall|e: (u32, i32)| #[trigger] after.indices().contains_key(e) implies {
        &&& after.entities().contains_key(after.indices()[e].key())
        &&& after.entities()[after.indices()[e].key()].key() == e
    } by {
        if e != entity.key() {
            assert(before.indices().contains_key(e));
            assert(before.entities().contains_key(before.indices()[e].key()));
        }
    }
}

// ---------------------------------------------------------------------------
// Building chunks from tiles whose entities were created.
// ---------------------------------------------------------------------------

/// The kinds of the tiles `placed` (index, kind, entity), recorded in order: a later tile
/// at the same index replaces an earlier one.
pub open spec fn types_of(placed: Seq<(TileIndex, TileTypes, EntityId)>) -> Map<(u64, u64), TileTypes>
    decreases placed.len(),
{
    if placed.len() == 0 {
        Map::empty()
    } else {
        types_of(placed.drop_last()).insert(placed.last().0.key(), placed.last().1)
    }
}

/// The entities of the tiles `placed`, by tile index, recorded in order.
pub open spec fn entities_of(placed: Seq<(TileIndex, TileTypes, EntityId)>) -> Map<(u64, u64), EntityId>
    decreases placed.len(),
{
    if placed.len() == 0 {
        Map::empty()
    } else {
        entities_of(placed.drop_last()).insert(placed.last().0.key(), placed.last().2)
    }
}

/// The tile indices of the entities of the tiles `placed`, recorded in order.
pub open spec fn indices_of(placed: Seq<(TileIndex, TileTypes, EntityId)>) -> Map<(u32, i32), TileIndex>
    decreases placed.len(),
{
    if placed.len() == 0 {
        Map::empty()
    } else {
        indices_of(placed.drop_last()).insert(placed.last().2.key(), placed.last().0)
    }
}

/// The tiles among the first `n` of `plan` whose entity was created, each with its entity,
/// in plan order.
pub open spec fn spawned(
    plan: Seq<(TileIndex, TileTypes)>,
    entities: Seq<Result<EntityId, GameWorldError>>,
    n: int,
) -> Seq<(TileIndex, TileTypes, EntityId)>
    decreases n,
{
    if n <= 0 {
        Seq::empty()
    } else {
        let rest = spawned(plan, entities, n - 1);
        match entities[n - 1] {
            Ok(e) => rest.push((plan[n - 1].0, plan[n - 1].1, e)),
            Err(_) => rest,
        }
    }
}

/// The tiles among the first `n` of `plan` whose entity could not be created, each with
/// the error, in plan order.
pub open spec fn spawn_failures(
    plan: Seq<(TileIndex, TileTypes)>,
    entities: Seq<Result<EntityId, GameWorldError>>,
    n: int,
) -> Seq<(TileIndex, GameWorldError)>
    decreases n,
{
    if n <= 0 {
        Seq::empty()
    } else {
        let rest = spawn_failures(plan, entities, n - 1);
        match entities[n - 1] {
            Ok(_) => rest,
            Err(e) => rest.push((plan[n - 1].0, e)),
        }
    }
}

/// Why a saved tile cannot be loaded into a chunk of `chunk_dim` tiles, if it cannot:
/// it lies outside the chunk, or its entity could not be created.
pub open spec fn load_failure(chunk_dim: (u64, u64), tile: TileIndex, entity: Result<EntityId, GameWorldError>)
    -> Option<GameWorldError>
{
    if !tile_in_bounds(chunk_dim, tile) {
        Some(GameWorldError::TileProblem(TileError::IndexOutOfBounds))
    } else {
        match entity {
            Ok(_) => None,
            Err(e) => Some(e),
        }
    }
}

/// The first failure among the first `n` saved tiles, if any.
pub open spec fn first_load_failure(
    chunk_dim: (u64, u64),
    tiles: Seq<(TileIndex, TileTypes)>,
    entities: Seq<Result<EntityId, GameWorldError>>,
    n: int,
) -> Option<GameWorldError>
    decreases n,
{
    if n <= 0 {
        None
    } else {
        match first_load_failure(chunk_dim, tiles, entities, n - 1) {
            Some(e) => Some(e),
            None => load_failure(chunk_dim, tiles[n - 1].0, entities[n - 1]),
        }
    }
}

impl Chunk {
    /// Whether the chunk holds exactly the tiles `placed`, recorded in order.
    pub open spec fn holds(&self, placed: Seq<(TileIndex, TileTypes, EntityId)>) -> bool {
        &&& self.types() == types_of(placed)
        &&& self.entities() == entities_of(placed)
        &&& self.indices() == indices_of(placed)
    }

    /// Whether every tile of the chunk lies inside a chunk of `chunk_dim` tiles.
    pub open spec fn within(&self, chunk_dim: (u64, u64)) -> bool {
        &&& forall|k: (u64, u64)| #[trigger] self.types().contains_key(k)
            ==> tile_in_bounds(chunk_dim, TileIndex(k.0, k.1))
        &&& forall|k: (u64, u64)| #[trigger] self.entities().contains_key(k)
            ==> tile_in_bounds(chunk_dim, TileIndex(k.0, k.1))
    }

    /// The tiles of a new chunk `chunk_id` of `planet`, in the order they are created: every
    /// index of the chunk's layout, with the kind `create_tile_type` decides for it at the
    /// given depth section.
    pub fn plan_tiles(planet: &Planet, chunk_id: ChunkIndex, depth_section: usize) -> (r: Vec<(TileIndex, TileTypes)>)
        ensures
            r@.len() == planet.chunk_dims().0 * planet.chunk_dims().1,
            forall|i: int| 0 <= i < r@.len() ==> {
                &&& (#[trigger] r@[i]).0 == layout_tile(planet.chunk_dims(), i)
                &&& if chunk_id.0 > 0 {
                    can_be_drawn(depth_section, r@[i].1)
                } else {
                    r@[i].1 == TileTypes::Empty
                }
            },
    {
        let layout = Chunk::layout(planet.chunk_dim);
        let mut r: Vec<(TileIndex, TileTypes)> = Vec::new();
        let mut i: usize = 0;
        while i < layout.len()
            invariant
                i <= layout@.len(),
                layout@.len() == planet.chunk_dims().0 * planet.chunk_dims().1,
                forall|k: int| 0 <= k < layout@.len() ==> #[trigger] layout@[k] == layout_tile(planet.chunk_dims(), k),
                r@.len() == i,
                forall|k: int| 0 <= k < i ==> {
                    &&& (#[trigger] r@[k]).0 == layout_tile(planet.chunk_dims(), k)
                    &&& if chunk_id.0 > 0 {
                        can_be_drawn(depth_section, r@[k].1)
                    } else {
                        r@[k].1 == TileTypes::Empty
                    }
                },
            decreases layout@.len() - i,
        {
            let tile = layout[i];
            proof {
                lemma_layout_tile_in_bounds(planet.chunk_dims(), i as int);
            }
            let kind = match Chunk::create_tile_type(planet, chunk_id, tile, None, depth_section) {
                Ok(kind) => kind,
                Err(_) => TileTypes::Empty,
            };
            r.push((tile, kind));
            i = i + 1;
        }
        r
    }

    /// A new chunk of the tiles `plan`, where `entities[i]` is the entity created for tile
    /// `i` of the plan or the error of its creation. Tiles whose entity was created are
    /// recorded in plan order; the others are handed back with their errors, in plan order.
    pub fn from_plan(
        plan: &Vec<(TileIndex, TileTypes)>,
        entities: &Vec<Result<EntityId, GameWorldError>>,
    ) -> (r: (Chunk, Vec<(TileIndex, GameWorldError)>))
        requires
            entities@.len() == plan@.len(),
        ensures
            r.0.holds(spawned(plan@, entities@, plan@.len() as int)),
            r.1@ == spawn_failures(plan@, entities@, plan@.len() as int),
    {
        let mut chunk = Chunk::empty();
        let mut failures: Vec<(TileIndex, GameWorldError)> = Vec::new();
        let mut i: usize = 0;
        proof {
            assert(types_of(Seq::empty()) =~= Map::<(u64, u64), TileTypes>::empty());
            assert(entities_of(Seq::empty()) =~= Map::<(u64, u64), EntityId>::empty());
            assert(indices_of(Seq::empty()) =~= Map::<(u32, i32), TileIndex>::empty());
        }
        while i < plan.len()
            invariant
                i <= plan@.len(),
                entities@.len() == plan@.len(),
                chunk.holds(spawned(plan@, entities@, i as int)),
                failures@ == spawn_failures(plan@, entities@, i as int),
            decreases plan@.len() - i,
        {
            let (tile, kind) = plan[i];
            let ghost before = spawned(plan@, entities@, i as int);
            match entities[i] {
                Ok(entity) => {
                    let _ = Chunk::add_tile(&mut chunk, tile, Ok((kind, entity)));
                    proof {
                        let after = before.push((tile, kind, entity));
                        assert(after.drop_last() =~= before);
                        assert(spawned(plan@, entities@, i + 1) == after);
                    }
                },
                Err(e) => {
                    failures.push((tile, e));
                },
            }
            i = i + 1;
        }
        (chunk, failures)
    }

    /// The chunk of the saved tiles `tiles`, where `entities[i]` is the entity created for
    /// saved tile `i` or the error of its creation. The first tile outside `chunk_dim` or
    /// without an entity fails the whole chunk with its error.
    pub fn from_saved(
        chunk_dim: (u64, u64),
        tiles: &Vec<(TileIndex, TileTypes)>,
        entities: &Vec<Result<EntityId, GameWorldError>>,
    ) -> (r: Result<Chunk, GameWorldError>)
        requires
            entities@.len() == tiles@.len(),
        ensures
            match first_load_failure(chunk_dim, tiles@, entities@, tiles@.len() as int) {
                Some(e) => r == Err::<Chunk, GameWorldError>(e),
                None => r matches Ok(c) && c.holds(spawned(tiles@, entities@, tiles@.len() as int))
                    && c.within(chunk_dim),
            },
    {
        let mut chunk = Chunk::empty();
        let mut i: usize = 0;
        proof {
            assert(types_of(Seq::empty()) =~= Map::<(u64, u64), TileTypes>::empty());
            assert(entities_of(Seq::empty()) =~= Map::<(u64, u64), EntityId>::empty());
            assert(indices_of(Seq::empty()) =~= Map::<(u32, i32), TileIndex>::empty());
        }
        while i < tiles.len()
            invariant
                i <= tiles@.len(),
                entities@.len() == tiles@.len(),
                first_load_failure(chunk_dim, tiles@, entities@, i as int) is None,
                chunk.holds(spawned(tiles@, entities@, i as int)),
                chunk.within(chunk_dim),
            decreases tiles@.len() - i,
        {
            let (tile, kind) = tiles[i];
            if tile.0 >= chunk_dim.0 || tile.1 >= chunk_dim.1 {
                proof {
                    lemma_first_load_failure_stays(chunk_dim, tiles@, entities@, i + 1, tiles@.len() as int);
                }
                return Err(GameWorldError::TileProblem(TileError::IndexOutOfBounds));
            }
            let ghost before = spawned(tiles@, entities@, i as int);
            match entities[i] {
                Ok(entity) => {
                    let _ = Chunk::add_tile(&mut chunk, tile, Ok((kind, entity)));
                    proof {
                        let after = before.push((tile, kind, entity));
                        assert(after.drop_last() =~= before);
                        assert(spawned(tiles@, entities@, i + 1) == after);
                    }
                },
                Err(e) => {
                    proof {
                        lemma_first_load_failure_stays(chunk_dim, tiles@, entities@, i + 1, tiles@.len() as int);
                    }
                    return Err(e);
                },
            }
            i = i + 1;
        }
        Ok(chunk)
    }
}

/// What recording the spawned tiles of a plan gives, when the plan's tile indices are
/// distinct and so are the created entities: every spawned tile is found under its index
/// with its kind and entity, and its index under its entity; a tile whose entity failed is
/// not found; nothing else is found; and there are as many tiles as were spawned.
pub proof fn lemma_spawned_maps(
    plan: Seq<(TileIndex, TileTypes)>,
    entities: Seq<Result<EntityId, GameWorldError>>,
    n: int,
)
    requires
        0 <= n <= plan.len(),
        entities.len() == plan.len(),
        forall|i: int, j: int| 0 <= i < j < n ==> (#[trigger] plan[i]).0.key() != (#[trigger] plan[j]).0.key(),
        forall|i: int, j: int| 0 <= i < j < n && (#[trigger] entities[i]) is Ok && (#[trigger] entities[j]) is Ok
            ==> entities[i]->Ok_0.key() != entities[j]->Ok_0.key(),
    ensures
        ({
            let sp = spawned(plan, entities, n);
            &&& forall|i: int| 0 <= i < n && (#[trigger] entities[i]) is Ok ==> {
                &&& types_of(sp).contains_key(plan[i].0.key())
                &&& types_of(sp)[plan[i].0.key()] == plan[i].1
                &&& entities_of(sp).contains_key(plan[i].0.key())
                &&& entities_of(sp)[plan[i].0.key()] == entities[i]->Ok_0
                &&& indices_of(sp).contains_key(entities[i]->Ok_0.key())
                &&& indices_of(sp)[entities[i]->Ok_0.key()] == plan[i].0
            }
            &&& forall|i: int| 0 <= i < n && (#[trigger] entities[i]) is Err ==> {
                &&& !types_of(sp).contains_key(plan[i].0.key())
                &&& !entities_of(sp).contains_key(plan[i].0.key())
            }
            &&& forall|k: (u64, u64)| #[trigger] types_of(sp).contains_key(k) ==>
                exists|i: int| 0 <= i < n && entities[i] is Ok && plan[i].0.key() == k
            &&& forall|k: (u64, u64)| #[trigger] entities_of(sp).contains_key(k) ==>
                exists|i: int| 0 <= i < n && entities[i] is Ok && plan[i].0.key() == k
            &&& forall|e: (u32, i32)| #[trigger] indices_of(sp).contains_key(e) ==>
                exists|i: int| 0 <= i < n && entities[i] is Ok && entities[i]->Ok_0.key() == e
            &&& types_of(sp).dom().finite()
            &&& types_of(sp).dom().len() == sp.len()
            &&& sp.len() <= n
            &&& (forall|i: int| 0 <= i < n ==> (#[trigger] entities[i]) is Ok) ==> sp.len() == n
        }),
    decreases n,
{
    if n > 0 {
        let m = n - 1;
        lemma_spawned_maps(plan, entities, m);
        let before = spawned(plan, entities, m);
        let sp = spawned(plan, entities, n);
        let k = plan[m].0.key();
        assert(!types_of(before).contains_key(k)) by {
            if types_of(before).contains_key(k) {
                let i = choose|i: int| 0 <= i < m && entities[i] is Ok && plan[i].0.key() == k;
                assert(plan[i].0.key() != plan[m].0.key());
            }
        }
        assert(!entities_of(before).contains_key(k)) by {
            if entities_of(before).contains_key(k) {
                let i = choose|i: int| 0 <= i < m && entities[i] is Ok && plan[i].0.key() == k;
                assert(plan[i].0.key() != plan[m].0.key());
            }
        }
        match entities[m] {
            Ok(ent) => {
                let x = (plan[m].0, plan[m].1, ent);
                assert(sp == before.push(x));
                assert(sp.drop_last() =~= before);
                assert(types_of(sp) == types_of(before).insert(k, plan[m].1));
                assert(entities_of(sp) == entities_of(before).insert(k, ent));
                assert(indices_of(sp) == indices_of(before).insert(ent.key(), plan[m].0));
                assert forall|i: int| 0 <= i < n && (#[trigger] entities[i]) is Ok implies {
                    &&& types_of(sp).contains_key(plan[i].0.key())
                    &&& types_of(sp)[plan[i].0.key()] == plan[i].1
                    &&& entities_of(sp).contains_key(plan[i].0.key())
                    &&& entities_of(sp)[plan[i].0.key()] == entities[i]->Ok_0
                    &&& indices_of(sp).contains_key(entities[i]->Ok_0.key())
                    &&& indices_of(sp)[entities[i]->Ok_0.key()] == plan[i].0
                } by {
                    if i < m {
                        assert(plan[i].0.key() != plan[m].0.key());
                        assert(entities[i]->Ok_0.key() != entities[m]->Ok_0.key());
                    }
                }
                assert forall|i: int| 0 <= i < n && (#[trigger] entities[i]) is Err implies {
                    &&& !types_of(sp).contains_key(plan[i].0.key())
                    &&& !entities_of(sp).contains_key(plan[i].0.key())
                } by {
                    assert(plan[i].0.key() != plan[m].0.key());
                }
                assert forall|kk: (u64, u64)| #[trigger] types_of(sp).contains_key(kk) implies
                    exists|i: int| 0 <= i < n && entities[i] is Ok && plan[i].0.key() == kk by {
                    if kk == k {
                        assert(entities[m] is Ok && plan[m].0.key() == kk);
                    }
                }
                assert forall|kk: (u64, u64)| #[trigger] entities_of(sp).contains_key(kk) implies
                    exists|i: int| 0 <= i < n && entities[i] is Ok && plan[i].0.key() == kk by {
                    if kk == k {
                        assert(entities[m] is Ok && plan[m].0.key() == kk);
                    }
                }
                assert forall|e: (u32, i32)| #[trigger] indices_of(sp).contains_key(e) implies
                    exists|i: int| 0 <= i < n && entities[i] is Ok && entities[i]->Ok_0.key() == e by {
                    if e == ent.key() {
                        assert(entities[m] is Ok && entities[m]->Ok_0.key() == e);
                    }
                }
                assert(types_of(sp).dom() == types_of(before).dom().insert(k));
            },
            Err(_) => {
                assert(sp == before);
            },
        }
    }
}

/// A chunk loaded with `load_chunk` from saved tiles with distinct indices, whose created
/// entities are distinct, holds exactly the saved tiles: each saved tile is found under
/// its index with its kind, no other tile is found, there are as many tiles as were saved,
/// and the chunk's maps agree.
pub proof fn lemma_loaded_chunk_holds_saved_tiles(
    chunk: Chunk,
    chunk_dim: (u64, u64),
    tiles: Seq<(TileIndex, TileTypes)>,
    entities: Seq<Result<EntityId, GameWorldError>>,
)
    requires
        entities.len() == tiles.len(),
        first_load_failure(chunk_dim, tiles, entities, tiles.len() as int) is None,
        chunk.holds(spawned(tiles, entities, tiles.len() as int)),
        forall|i: int, j: int| 0 <= i < j < tiles.len() ==> (#[trigger] tiles[i]).0.key() != (#[trigger] tiles[j]).0.key(),
        forall|i: int, j: int| 0 <= i < j < tiles.len() && (#[trigger] entities[i]) is Ok && (#[trigger] entities[j]) is Ok
            ==> entities[i]->Ok_0.key() != entities[j]->Ok_0.key(),
    ensures
        forall|i: int| 0 <= i < tiles.len() ==> {
            &&& chunk.types().contains_key((#[trigger] tiles[i]).0.key())
            &&& chunk.types()[tiles[i].0.key()] == tiles[i].1
        },
        forall|k: (u64, u64)| #[trigger] chunk.types().contains_key(k) ==>
            exists|i: int| 0 <= i < tiles.len() && tiles[i].0.key() == k,
        chunk.types().dom().len() == tiles.len(),
        chunk.tiles_consistent(),
{
    let n = tiles.len() as int;
    lemma_all_loaded(chunk_dim, tiles, entities, n);
    lemma_spawned_maps(tiles, entities, n);
    lemma_spawned_chunk_consistent(chunk, tiles, entities, n);
    assert forall|i: int| 0 <= i < tiles.len() implies {
        &&& chunk.types().contains_key((#[trigger] tiles[i]).0.key())
        &&& chunk.types()[tiles[i].0.key()] == tiles[i].1
    } by {
        assert(entities[i] is Ok);
    }
}

/// When no saved tile fails, every entity among them was created.
proof fn lemma_all_loaded(
    chunk_dim: (u64, u64),
    tiles: Seq<(TileIndex, TileTypes)>,
    entities: Seq<Result<EntityId, GameWorldError>>,
    n: int,
)
    requires
        0 <= n <= tiles.len(),
        entities.len() == tiles.len(),
        first_load_failure(chunk_dim, tiles, entities, n) is None,
    ensures
        forall|i: int| 0 <= i < n ==> (#[trigger] entities[i]) is Ok,
    decreases n,
{
    if n > 0 {
        lemma_all_loaded(chunk_dim, tiles, entities, n - 1);
    }
}

/// A chunk holding the spawned tiles of a plan with distinct indices and distinct entities
/// has maps that agree.
proof fn lemma_spawned_chunk_consistent(
    chunk: Chunk,
    plan: Seq<(TileIndex, TileTypes)>,
    entities: Seq<Result<EntityId, GameWorldError>>,
    n: int,
)
    requires
        0 <= n <= plan.len(),
        entities.len() == plan.len(),
        chunk.holds(spawned(plan, entities, n)),
        forall|i: int, j: int| 0 <= i < j < n ==> (#[trigger] plan[i]).0.key() != (#[trigger] plan[j]).0.key(),
        forall|i: int, j: int| 0 <= i < j < n && (#[trigger] entities[i]) is Ok && (#[trigger] entities[j]) is Ok
            ==> entities[i]->Ok_0.key() != entities[j]->Ok_0.key(),
    ensures
        chunk.tiles_consistent(),
{
    lemma_spawned_maps(plan, entities, n);
    let sp = spawned(plan, entities, n);
    assert(chunk.types().dom() =~= chunk.entities().dom()) by {
        assert forall|k: (u64, u64)| chunk.types().contains_key(k) <==> chunk.entities().contains_key(k) by {
            if types_of(sp).contains_key(k) {
                let i = choose|i: int| 0 <= i < n && entities[i] is Ok && plan[i].0.key() == k;
                assert(entities[i] is Ok);
            }
            if entities_of(sp).contains_key(k) {
                let i = choose|i: int| 0 <= i < n && entities[i] is Ok && plan[i].0.key() == k;
                assert(entities[i] is Ok);
            }
        }
    }
    assert forall|k: (u64, u64)| #[trigger] chunk.entities().contains_key(k) implies {
        &&& chunk.indices().contains_key(chunk.entities()[k].key())
        &&& chunk.indices()[chunk.entities()[k].key()].key() == k
    } by {
        let i = choose|i: int| 0 <= i < n && entities[i] is Ok && plan[i].0.key() == k;
        assert(entities[i] is Ok);
    }
    assert forall|e: (u32, i32)| #[trigger] chunk.indices().contains_key(e) implies {
        &&& chunk.entities().contains_key(chunk.indices()[e].key())
        &&& chunk.entities()[chunk.indices()[e].key()].key() == e
    } by {
        let i = choose|i: int| 0 <= i < n && entities[i] is Ok && entities[i]->Ok_0.key() == e;
        assert(entities[i] is Ok);
    }
}

/// A new chunk built with `from_plan` from the plan of `plan_tiles` and distinct created
/// entities holds one tile per index of its layout whose entity was created, with the
/// planned kind and that entity, and no tile at the other indices; its tiles lie inside
/// the chunk and its maps agree.
pub proof fn lemma_generated_chunk_covers_layout(
    chunk: Chunk,
    chunk_dim: (u64, u64),
    plan: Seq<(TileIndex, TileTypes)>,
    entities: Seq<Result<EntityId, GameWorldError>>,
)
    requires
        plan.len() == chunk_dim.0 * chunk_dim.1,
        entities.len() == plan.len(),
        forall|i: int| 0 <= i < plan.len() ==> (#[trigger] plan[i]).0 == layout_tile(chunk_dim, i),
        forall|i: int, j: int| 0 <= i < j < plan.len() && (#[trigger] entities[i]) is Ok && (#[trigger] entities[j]) is Ok
            ==> entities[i]->Ok_0.key() != entities[j]->Ok_0.key(),
        chunk.holds(spawned(plan, entities, plan.len() as int)),
    ensures
        forall|i: int| 0 <= i < plan.len() && (#[trigger] entities[i]) is Ok ==> {
            &&& chunk.types().contains_key(layout_tile(chunk_dim, i).key())
            &&& chunk.types()[layout_tile(chunk_dim, i).key()] == plan[i].1
            &&& chunk.entities()[layout_tile(chunk_dim, i).key()] == entities[i]->Ok_0
        },
        forall|i: int| 0 <= i < plan.len() && (#[trigger] entities[i]) is Err ==>
            !chunk.types().contains_key(layout_tile(chunk_dim, i).key()),
        chunk.within(chunk_dim),
        chunk.tiles_consistent(),
{
    let n = plan.len() as int;
    assert forall|i: int, j: int| 0 <= i < j < n implies (#[trigger] plan[i]).0.key() != (#[trigger] plan[j]).0.key() by {
        lemma_layout_tiles_distinct(chunk_dim, i, j);
    }
    lemma_spawned_maps(plan, entities, n);
    lemma_spawned_chunk_consistent(chunk, plan, entities, n);
    let sp = spawned(plan, entities, n);
    assert forall|k: (u64, u64)| #[trigger] chunk.types().contains_key(k)
        implies tile_in_bounds(chunk_dim, TileIndex(k.0, k.1)) by {
        let i = choose|i: int| 0 <= i < n && entities[i] is Ok && plan[i].0.key() == k;
        lemma_layout_tile_in_bounds(chunk_dim, i);
    }
    assert forall|k: (u64, u64)| #[trigger] chunk.entities().contains_key(k)
        implies tile_in_bounds(chunk_dim, TileIndex(k.0, k.1)) by {
        let i = choose|i: int| 0 <= i < n && entities[i] is Ok && plan[i].0.key() == k;
        lemma_layout_tile_in_bounds(chunk_dim, i);
    }
}

/// In a chunk whose tiles lie inside a chunk of `chunk_dim` tiles, as every loaded and
/// every generated chunk's do, an index beyond the chunk-dim has no kind and no entity:
/// the chunk's getters give `None` for it.
pub proof fn lemma_nothing_beyond_chunk_dim(chunk: Chunk, chunk_dim: (u64, u64), index: TileIndex)
    requires
        chunk.within(chunk_dim),
        !tile_in_bounds(chunk_dim, index),
    ensures
        !chunk.types().contains_key(index.key()),
        !chunk.entities().contains_key(index.key()),
{
}

/// Once a failure is found among the first `m` saved tiles, it stays the first failure
/// among more of them.
proof fn lemma_first_load_failure_stays(
    chunk_dim: (u64, u64),
    tiles: Seq<(TileIndex, TileTypes)>,
    entities: Seq<Result<EntityId, GameWorldError>>,
    m: int,
    n: int,
)
    requires
        0 <= m <= n,
        first_load_failure(chunk_dim, tiles, entities, m) is Some,
    ensures
        first_load_failure(chunk_dim, tiles, entities, n) == first_load_failure(chunk_dim, tiles, entities, m),
    decreases n - m,
{
    if n > m {
        lemma_first_load_failure_stays(chunk_dim, tiles, entities, m, n - 1);
    }
}

/// The tile at place `i` of the layout of a chunk of `chunk_dim` tiles.
pub open spec fn layout_tile(chunk_dim: (u64, u64), i: int) -> TileIndex {
    TileIndex((i / chunk_dim.1 as int) as u64, (i % chunk_dim.1 as int) as u64)
}

/// Every place of the layout of a chunk gives a tile inside the chunk.
pub proof fn lemma_layout_tile_in_bounds(chunk_dim: (u64, u64), i: int)
    requires
        0 <= i < chunk_dim.0 * chunk_dim.1,
    ensures
        tile_in_bounds(chunk_dim, layout_tile(chunk_dim, i)),
{
    let d = chunk_dim.1 as int;
    assert(chunk_dim.1 > 0) by (nonlinear_arith)
        requires
            0 <= i < chunk_dim.0 * chunk_dim.1,
            chunk_dim.0 >= 0,
            chunk_dim.1 >= 0,
    ;
    vstd::arithmetic::mul::lemma_mul_is_commutative(d, chunk_dim.0 as int);
    vstd::arithmetic::div_mod::lemma_multiply_divide_lt(i, d, chunk_dim.0 as int);
    vstd::arithmetic::div_mod::lemma_div_pos_is_pos(i, d);
    vstd::arithmetic::div_mod::lemma_mod_pos_bound(i, d);
}

/// Distinct places of the layout of a chunk give distinct tiles.
pub proof fn lemma_layout_tiles_distinct(chunk_dim: (u64, u64), i: int, j: int)
    requires
        0 <= i < chunk_dim.0 * chunk_dim.1,
        0 <= j < chunk_dim.0 * chunk_dim.1,
        i != j,
    ensures
        layout_tile(chunk_dim, i) != layout_tile(chunk_dim, j),
        layout_tile(chunk_dim, i).key() != layout_tile(chunk_dim, j).key(),
{
    let d = chunk_dim.1 as int;
    lemma_layout_tile_in_bounds(chunk_dim, i);
    lemma_layout_tile_in_bounds(chunk_dim, j);
    vstd::arithmetic::mul::lemma_mul_is_commutative(d, chunk_dim.0 as int);
    vstd::arithmetic::div_mod::lemma_multiply_divide_lt(i, d, chunk_dim.0 as int);
    vstd::arithmetic::div_mod::lemma_multiply_divide_lt(j, d, chunk_dim.0 as int);
    vstd::arithmetic::div_mod::lemma_div_pos_is_pos(i, d);
    vstd::arithmetic::div_mod::lemma_div_pos_is_pos(j, d);
    vstd::arithmetic::div_mod::lemma_mod_pos_bound(i, d);
    vstd::arithmetic::div_mod::lemma_mod_pos_bound(j, d);
    vstd::arithmetic::div_mod::lemma_fundamental_div_mod(i, d);
    vstd::arithmetic::div_mod::lemma_fundamental_div_mod(j, d);
    if i / d == j / d && i % d == j % d {
        assert(i == j);
    }
}

/// The layout of a chunk holds each of its tiles exactly once: every place gives a tile
/// inside the chunk, distinct places give distinct tiles, and every tile inside the chunk
/// has its place (row by row).
pub proof fn lemma_layout_covers_chunk(chunk_dim: (u64, u64), i: int, j: int, tile: TileIndex)
    requires
        0 <= i < chunk_dim.0 * chunk_dim.1,
        0 <= j < chunk_dim.0 * chunk_dim.1,
        i != j,
        tile_in_bounds(chunk_dim, tile),
    ensures
        tile_in_bounds(chunk_dim, layout_tile(chunk_dim, i)),
        layout_tile(chunk_dim, i) != layout_tile(chunk_dim, j),
        0 <= tile.0 * chunk_dim.1 + tile.1 < chunk_dim.0 * chunk_dim.1,
        layout_tile(chunk_dim, tile.0 * chunk_dim.1 + tile.1) == tile,
{
    lemma_layout_tile_in_bounds(chunk_dim, i);
    lemma_layout_tiles_distinct(chunk_dim, i, j);
    let d = chunk_dim.1 as int;
    let n = tile.0 * chunk_dim.1 + tile.1;
    assert(0 <= n < chunk_dim.0 * chunk_dim.1) by (nonlinear_arith)
        requires
            n == tile.0 * chunk_dim.1 + tile.1,
            tile.0 < chunk_dim.0,
            tile.1 < chunk_dim.1,
    {
        assert(tile.0 * chunk_dim.1 <= (chunk_dim.0 - 1) * chunk_dim.1);
    }
    vstd::arithmetic::div_mod::lemma_fundamental_div_mod_converse(n, d, tile.0 as int, tile.1 as int);
}

/// Distinct chunks inside a planet of `planet_rows` rows are saved under distinct file numbers.
pub proof fn lemma_chunk_file_numbers_distinct(planet_rows: u64, a: ChunkIndex, b: ChunkIndex)
    requires
        a.0 < planet_rows,
        b.0 < planet_rows,
        a != b,
    ensures
        a.1 * planet_rows + a.0 != b.1 * planet_rows + b.0,
{
    if a.1 * planet_rows + a.0 == b.1 * planet_rows + b.0 {
        let n = a.1 * planet_rows + a.0;
        vstd::arithmetic::div_mod::lemma_fundamental_div_mod_converse(n, planet_rows as int, a.1 as int, a.0 as int);
        vstd::arithmetic::div_mod::lemma_fundamental_div_mod_converse(n, planet_rows as int, b.1 as int, b.0 as int);
    }
}

} // verus!
