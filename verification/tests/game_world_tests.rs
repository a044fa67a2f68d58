use toppa_drill::game_world::{
    Chunk, ChunkError, ChunkIndex, EntityId, GameWorldError, Planet, TileError, TileIndex,
};
use toppa_drill::tiles::TileTypes;

fn planet() -> Planet {
    Planet::new((4, 5), (2, 3))
}

fn chunk_with(tiles: &[(u64, u64, TileTypes, u32)]) -> Chunk {
    let mut chunk = Chunk::empty();
    for &(y, x, t, e) in tiles {
        assert_eq!(Chunk::add_tile(&mut chunk, TileIndex(y, x), Ok((t, EntityId(e, 1)))), Ok(()));
    }
    chunk
}

#[test]
fn clamp_chunk_index_keeps_indices_inside_the_planet() {
    let p = planet();
    assert_eq!(Planet::clamp_chunk_index(&p, ChunkIndex(3, 4)), Ok(ChunkIndex(3, 4)));
    assert_eq!(Planet::clamp_chunk_index(&p, ChunkIndex(0, 0)), Ok(ChunkIndex(0, 0)));
}

#[test]
fn clamp_chunk_index_wraps_columns() {
    let p = planet();
    assert_eq!(Planet::clamp_chunk_index(&p, ChunkIndex(2, 5)), Ok(ChunkIndex(2, 0)));
    assert_eq!(Planet::clamp_chunk_index(&p, ChunkIndex(2, 12)), Ok(ChunkIndex(2, 2)));
    assert_eq!(Planet::clamp_chunk_index(&p, ChunkIndex(1, u64::MAX)), Ok(ChunkIndex(1, u64::MAX % 5)));
}

#[test]
fn clamp_chunk_index_refuses_rows_beyond_the_planet() {
    let p = planet();
    assert_eq!(
        Planet::clamp_chunk_index(&p, ChunkIndex(4, 0)),
        Err(GameWorldError::ChunkProblem(ChunkError::IndexOutOfBounds))
    );
}

#[test]
fn clamping_twice_changes_nothing() {
    let p = planet();
    let once = Planet::clamp_chunk_index(&p, ChunkIndex(3, 17)).unwrap();
    assert_eq!(Planet::clamp_chunk_index(&p, once), Ok(once));
}

#[test]
fn clamp_tile_index_checks_the_chunk_dim() {
    let p = planet();
    assert_eq!(Chunk::clamp_tile_index(&p, TileIndex(1, 2)), Ok(TileIndex(1, 2)));
    assert_eq!(
        Chunk::clamp_tile_index(&p, TileIndex(2, 0)),
        Err(GameWorldError::TileProblem(TileError::IndexOutOfBounds))
    );
    assert_eq!(
        Chunk::clamp_tile_index(&p, TileIndex(0, 3)),
        Err(GameWorldError::TileProblem(TileError::IndexOutOfBounds))
    );
}

#[test]
fn get_chunk_finds_a_new_chunk_through_clamping() {
    let mut p = planet();
    assert_eq!(p.get_chunk(ChunkIndex(1, 1)).map(|c| c.is_some()), Err(GameWorldError::ChunkProblem(ChunkError::NotFound)));
    let stored = p.new_chunk(ChunkIndex(1, 6), chunk_with(&[(0, 0, TileTypes::Gold, 7)]));
    assert_eq!(stored, Ok(ChunkIndex(1, 1)));
    let found = p.get_chunk(ChunkIndex(1, 1)).unwrap().unwrap();
    assert_eq!(found.iter_tile_entities(), vec![(TileIndex(0, 0), EntityId(7, 1))]);
    assert_eq!(p.iter_chunks(), vec![ChunkIndex(1, 1)]);
    let again = p.get_chunk(ChunkIndex(1, 11)).unwrap().unwrap();
    assert_eq!(again.iter_tiletypes(), vec![(TileIndex(0, 0), TileTypes::Gold)]);
}

#[test]
fn get_chunk_beyond_the_rows_is_not_found() {
    let p = planet();
    assert!(matches!(
        p.get_chunk(ChunkIndex(9, 0)),
        Err(GameWorldError::ChunkProblem(ChunkError::NotFound))
    ));
}

#[test]
fn new_chunk_beyond_the_rows_is_refused() {
    let mut p = planet();
    assert_eq!(
        p.new_chunk(ChunkIndex(4, 1), Chunk::empty()),
        Err(GameWorldError::ChunkProblem(ChunkError::IndexOutOfBounds))
    );
    assert!(p.iter_chunks().is_empty());
}

#[test]
fn get_tiletype_of_the_planet_finds_nothing() {
    assert_eq!(Planet::get_tiletype(ChunkIndex(0, 0), TileIndex(0, 0)), None);
}

#[test]
fn delete_chunk_hands_back_its_tile_entities() {
    let mut p = planet();
    let chunk = chunk_with(&[(1, 2, TileTypes::Rock, 4), (0, 1, TileTypes::Dirt, 3)]);
    p.new_chunk(ChunkIndex(2, 2), chunk).unwrap();
    let tiles = p.delete_chunk(ChunkIndex(2, 2)).unwrap();
    assert_eq!(tiles, vec![(TileIndex(0, 1), EntityId(3, 1)), (TileIndex(1, 2), EntityId(4, 1))]);
    assert_eq!(p.get_chunk(ChunkIndex(2, 2)).map(|c| c.is_some()), Err(GameWorldError::ChunkProblem(ChunkError::NotFound)));
    assert!(p.delete_chunk(ChunkIndex(2, 2)).is_none());
}

#[test]
fn load_chunk_stores_under_the_index_as_given() {
    let mut p = planet();
    assert_eq!(p.load_chunk(ChunkIndex(1, 9), &vec![], &vec![]), Ok(()));
    assert_eq!(p.iter_chunks(), vec![ChunkIndex(1, 9)]);
    assert_eq!(p.get_chunk(ChunkIndex(1, 9)).map(|c| c.is_some()), Err(GameWorldError::ChunkProblem(ChunkError::NotFound)));
}

#[test]
fn get_chunk_finds_a_loaded_chunk_inside_the_planet() {
    let mut p = planet();
    let tiles = vec![(TileIndex(1, 2), TileTypes::Rock), (TileIndex(0, 1), TileTypes::Gold)];
    let entities = vec![Ok(EntityId(8, 1)), Ok(EntityId(7, 1))];
    assert_eq!(p.load_chunk(ChunkIndex(1, 2), &tiles, &entities), Ok(()));
    let found = p.get_chunk(ChunkIndex(1, 2)).unwrap().unwrap();
    assert_eq!(found.iter_tiletypes(), vec![(TileIndex(0, 1), TileTypes::Gold), (TileIndex(1, 2), TileTypes::Rock)]);
    assert_eq!(found.iter_tile_entities(), vec![(TileIndex(0, 1), EntityId(7, 1)), (TileIndex(1, 2), EntityId(8, 1))]);
}

#[test]
fn load_chunk_refuses_the_chunk_at_the_first_failed_tile() {
    let mut p = planet();
    let missing = GameWorldError::TileProblem(TileError::SpriteRenderNotFound(
        toppa_drill::entities::EntitySpriteRender::Ore(TileTypes::Sperrylite),
    ));
    let tiles = vec![(TileIndex(0, 0), TileTypes::Dirt), (TileIndex(5, 0), TileTypes::Dirt), (TileIndex(0, 1), TileTypes::Sperrylite)];
    let entities = vec![Ok(EntityId(1, 1)), Ok(EntityId(2, 1)), Err(missing)];
    assert_eq!(
        p.load_chunk(ChunkIndex(0, 0), &tiles, &entities),
        Err(GameWorldError::TileProblem(TileError::IndexOutOfBounds))
    );
    assert!(p.iter_chunks().is_empty());
    let tiles = vec![(TileIndex(0, 0), TileTypes::Dirt), (TileIndex(0, 1), TileTypes::Sperrylite)];
    let entities = vec![Ok(EntityId(1, 1)), Err(missing)];
    assert_eq!(p.load_chunk(ChunkIndex(0, 0), &tiles, &entities), Err(missing));
    assert!(p.iter_chunks().is_empty());
}

#[test]
fn a_planned_chunk_gets_every_tile_of_its_layout() {
    let p = planet();
    let plan = Chunk::plan_tiles(&p, ChunkIndex(0, 3), 0);
    assert_eq!(
        plan,
        vec![
            (TileIndex(0, 0), TileTypes::Empty), (TileIndex(0, 1), TileTypes::Empty), (TileIndex(0, 2), TileTypes::Empty),
            (TileIndex(1, 0), TileTypes::Empty), (TileIndex(1, 1), TileTypes::Empty), (TileIndex(1, 2), TileTypes::Empty),
        ]
    );
    let deep = Chunk::plan_tiles(&p, ChunkIndex(3, 0), 7500);
    assert_eq!(deep.len(), 6);
    assert!(deep.iter().all(|(_, kind)| *kind != TileTypes::BedRock && *kind != TileTypes::Cinnabar));
}

#[test]
fn from_plan_records_created_tiles_and_hands_back_failures() {
    let plan = vec![(TileIndex(0, 0), TileTypes::Dirt), (TileIndex(0, 1), TileTypes::Gas), (TileIndex(1, 0), TileTypes::Gold)];
    let err = GameWorldError::TileProblem(TileError::SpriteRenderNotFound(
        toppa_drill::entities::EntitySpriteRender::Ore(TileTypes::Gas),
    ));
    let entities = vec![Ok(EntityId(4, 1)), Err(err), Ok(EntityId(5, 1))];
    let (mut chunk, failures) = Chunk::from_plan(&plan, &entities);
    assert_eq!(failures, vec![(TileIndex(0, 1), err)]);
    assert_eq!(chunk.iter_tiletypes(), vec![(TileIndex(0, 0), TileTypes::Dirt), (TileIndex(1, 0), TileTypes::Gold)]);
    assert_eq!(chunk.get_tile_index(EntityId(5, 1)), Some(TileIndex(1, 0)));
    assert_eq!(chunk.get_tile_type(TileIndex(0, 1)), None);
}

#[test]
fn remove_chunk_hands_the_chunk_back() {
    let mut p = planet();
    p.new_chunk(ChunkIndex(0, 0), chunk_with(&[(0, 0, TileTypes::Lava, 1)])).unwrap();
    let removed = p.remove_chunk(&ChunkIndex(0, 0)).unwrap();
    assert_eq!(removed.iter_tiletypes(), vec![(TileIndex(0, 0), TileTypes::Lava)]);
    assert!(p.remove_chunk(&ChunkIndex(0, 0)).is_none());
}

#[test]
fn drain_chunks_empties_the_planet() {
    let mut p = planet();
    p.new_chunk(ChunkIndex(0, 1), Chunk::empty()).unwrap();
    p.new_chunk(ChunkIndex(3, 0), Chunk::empty()).unwrap();
    let drained: Vec<ChunkIndex> = p.drain_chunks().into_iter().map(|(i, _)| i).collect();
    assert_eq!(drained, vec![ChunkIndex(0, 1), ChunkIndex(3, 0)]);
    assert!(p.iter_chunks().is_empty());
}

#[test]
fn clear_chunks_removes_everything() {
    let mut p = planet();
    p.new_chunk(ChunkIndex(0, 1), Chunk::empty()).unwrap();
    p.clear_chunks();
    assert!(p.iter_chunks().is_empty());
}

#[test]
fn chunk_file_number_is_column_times_rows_plus_row() {
    let p = planet();
    assert_eq!(p.chunk_file_number(ChunkIndex(3, 2)), 2 * 4 + 3);
    assert_eq!(p.chunk_file_number(ChunkIndex(0, 0)), 0);
}

#[test]
fn is_clampable_needs_columns_for_rows() {
    assert!(Planet::new((4, 5), (1, 1)).is_clampable());
    assert!(!Planet::new((4, 0), (1, 1)).is_clampable());
    assert!(Planet::new((0, 0), (1, 1)).is_clampable());
}

#[test]
fn chunk_getters_find_added_tiles() {
    let mut chunk = chunk_with(&[(1, 0, TileTypes::Gas, 9)]);
    assert_eq!(chunk.get_tile_type(TileIndex(1, 0)), Some(TileTypes::Gas));
    assert_eq!(chunk.get_tile_entity(TileIndex(1, 0)), Some(EntityId(9, 1)));
    assert_eq!(chunk.get_tile_index(EntityId(9, 1)), Some(TileIndex(1, 0)));
    assert_eq!(chunk.get_tile_type(TileIndex(0, 0)), None);
    assert_eq!(chunk.get_tile_entity(TileIndex(0, 0)), None);
    assert_eq!(chunk.get_tile_index(EntityId(9, 2)), None);
}

#[test]
fn added_tiles_keep_index_and_entity_inverse() {
    let mut chunk = chunk_with(&[(0, 0, TileTypes::Dirt, 1), (0, 1, TileTypes::Rock, 2), (1, 1, TileTypes::Gold, 3)]);
    for (index, entity) in chunk.iter_tile_entities() {
        assert_eq!(chunk.get_tile_index(entity), Some(index));
        assert!(chunk.get_tile_type(index).is_some());
    }
    assert_eq!(chunk.iter_tile_entities().len(), chunk.iter_tiletypes().len());
}

#[test]
fn add_tile_passes_a_failed_creation_on() {
    let mut chunk = Chunk::empty();
    let err = GameWorldError::TileProblem(TileError::IndexOutOfBounds);
    assert_eq!(Chunk::add_tile(&mut chunk, TileIndex(0, 0), Err(err)), Err(err));
    assert!(chunk.iter_tiletypes().is_empty());
    assert!(chunk.iter_tile_entities().is_empty());
}

#[test]
fn iter_tiletypes_goes_by_tile_index() {
    let chunk = chunk_with(&[
        (1, 1, TileTypes::Rock, 1),
        (0, 2, TileTypes::Dirt, 2),
        (1, 0, TileTypes::Gold, 3),
    ]);
    assert_eq!(
        chunk.iter_tiletypes(),
        vec![
            (TileIndex(0, 2), TileTypes::Dirt),
            (TileIndex(1, 0), TileTypes::Gold),
            (TileIndex(1, 1), TileTypes::Rock),
        ]
    );
}

#[test]
fn layout_goes_row_by_row() {
    assert_eq!(
        Chunk::layout((2, 3)),
        vec![
            TileIndex(0, 0), TileIndex(0, 1), TileIndex(0, 2),
            TileIndex(1, 0), TileIndex(1, 1), TileIndex(1, 2),
        ]
    );
    assert!(Chunk::layout((0, 3)).is_empty());
    assert!(Chunk::layout((3, 0)).is_empty());
}

#[test]
fn layout_holds_every_tile_of_the_chunk_once() {
    let layout = Chunk::layout((3, 4));
    assert_eq!(layout.len(), 12);
    for row in 0..3u64 {
        for column in 0..4u64 {
            let places = layout.iter().filter(|t| **t == TileIndex(row, column)).count();
            assert_eq!(places, 1);
        }
    }
    assert!(layout.iter().all(|t| t.0 < 3 && t.1 < 4));
}

#[test]
fn create_tile_type_keeps_a_given_kind() {
    let p = planet();
    assert_eq!(
        Chunk::create_tile_type(&p, ChunkIndex(2, 0), TileIndex(0, 0), Some(TileTypes::Skeleton), 5000),
        Ok(TileTypes::Skeleton)
    );
}

#[test]
fn create_tile_type_leaves_the_upmost_chunk_empty() {
    let p = planet();
    for _ in 0..50 {
        assert_eq!(
            Chunk::create_tile_type(&p, ChunkIndex(0, 3), TileIndex(1, 1), None, 0),
            Ok(TileTypes::Empty)
        );
    }
}

#[test]
fn create_tile_type_refuses_tiles_outside_the_chunk() {
    let p = planet();
    assert_eq!(
        Chunk::create_tile_type(&p, ChunkIndex(1, 0), TileIndex(2, 0), Some(TileTypes::Dirt), 0),
        Err(GameWorldError::TileProblem(TileError::IndexOutOfBounds))
    );
}

#[test]
fn create_tile_type_draws_shallow_kinds_near_the_top() {
    let p = planet();
    let shallow = [TileTypes::Dirt, TileTypes::Fossile, TileTypes::Magnetite, TileTypes::Pyrolusite, TileTypes::Empty];
    for _ in 0..200 {
        let t = Chunk::create_tile_type(&p, ChunkIndex(1, 0), TileIndex(0, 0), None, 100).unwrap();
        assert!(shallow.contains(&t), "{:?}", t);
    }
}

#[test]
fn from_cells_gives_tile_indices_inside_the_chunk() {
    let p = planet();
    assert_eq!(TileIndex::from_cells(&p, Some(2), Some(1)), Ok(TileIndex(1, 2)));
    assert_eq!(
        TileIndex::from_cells(&p, Some(3), Some(1)),
        Err(GameWorldError::TileProblem(TileError::IndexOutOfBounds))
    );
    assert_eq!(
        TileIndex::from_cells(&p, None, Some(1)),
        Err(GameWorldError::TileProblem(TileError::IndexOutOfBounds))
    );
}

#[test]
fn from_cells_gives_clamped_chunk_indices() {
    let p = planet();
    assert_eq!(ChunkIndex::from_cells(&p, Some(7), Some(3)), Ok(ChunkIndex(3, 2)));
    assert_eq!(
        ChunkIndex::from_cells(&p, Some(1), Some(4)),
        Err(GameWorldError::ChunkProblem(ChunkError::IndexOutOfBounds))
    );
    assert_eq!(
        ChunkIndex::from_cells(&p, Some(1), None),
        Err(GameWorldError::ChunkProblem(ChunkError::IndexOutOfBounds))
    );
}

#[test]
fn indices_are_written_out() {
    assert_eq!(ChunkIndex(2, 17).to_string(), "ChunkIndex(2, 17)");
    assert_eq!(TileIndex(0, 1234567890).to_string(), "TileIndex(0, 1234567890)");
    assert_eq!(ChunkIndex(u64::MAX, 10).to_string(), format!("ChunkIndex({}, 10)", u64::MAX));
}
