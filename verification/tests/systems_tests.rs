use toppa_drill::components::Position;
use toppa_drill::events::ChunkEvent;
use toppa_drill::game_world::{ChunkIndex, GameWorldError, Planet, TileError, TileIndex};
use toppa_drill::systems::{DummySystem, HotChunkSystem, PlayerPositionSystem, ShadowDummySystem, TileTracking};

fn unloads(events: &[ChunkEvent]) -> Vec<ChunkIndex> {
    let mut v: Vec<ChunkIndex> = events
        .iter()
        .filter_map(|e| match e {
            ChunkEvent::RequestingUnload(c) => Some(*c),
            _ => None,
        })
        .collect();
    v.sort();
    v
}

fn loads(events: &[ChunkEvent]) -> Vec<ChunkIndex> {
    let mut v: Vec<ChunkIndex> = events
        .iter()
        .filter_map(|e| match e {
            ChunkEvent::RequestingLoad(c) => Some(*c),
            _ => None,
        })
        .collect();
    v.sort();
    v
}

fn square(rows: std::ops::RangeInclusive<u64>, cols: std::ops::RangeInclusive<u64>) -> Vec<ChunkIndex> {
    let mut v = Vec::new();
    for y in rows {
        for x in cols.clone() {
            v.push(ChunkIndex(y, x));
        }
    }
    v
}

#[test]
fn track_tile_updates_the_tile_on_the_same_chunk() {
    let planet = Planet::new((8, 8), (4, 4));
    let mut pos = Position::new(ChunkIndex(2, 3), TileIndex(0, 0));
    assert_eq!(PlayerPositionSystem::track_tile(&mut pos, &planet, Some(1), Some(2)), TileTracking::SameChunk);
    assert_eq!(pos, Position::new(ChunkIndex(2, 3), TileIndex(2, 1)));
}

#[test]
fn track_tile_notices_the_player_left_its_chunk() {
    let planet = Planet::new((8, 8), (4, 4));
    let mut pos = Position::new(ChunkIndex(2, 3), TileIndex(1, 1));
    assert_eq!(PlayerPositionSystem::track_tile(&mut pos, &planet, Some(4), Some(0)), TileTracking::LeftChunk);
    assert_eq!(PlayerPositionSystem::track_tile(&mut pos, &planet, None, Some(0)), TileTracking::LeftChunk);
    assert_eq!(pos, Position::new(ChunkIndex(2, 3), TileIndex(1, 1)));
}

#[test]
fn entering_a_chunk_loads_its_window() {
    let planet = Planet::new((8, 8), (4, 4));
    let mut system = PlayerPositionSystem::default();
    let mut pos = Position::default();
    let events = system.enter_chunk(&mut pos, &planet, ChunkIndex(3, 3), Some(1), Some(2), 1).unwrap();
    assert_eq!(pos, Position::new(ChunkIndex(3, 3), TileIndex(2, 1)));
    assert_eq!(events.len(), 9);
    assert!(unloads(&events).is_empty());
    assert_eq!(loads(&events), square(2..=4, 2..=4));
}

#[test]
fn entering_the_same_chunk_again_requests_nothing() {
    let planet = Planet::new((8, 8), (4, 4));
    let mut system = PlayerPositionSystem::default();
    let mut pos = Position::default();
    system.enter_chunk(&mut pos, &planet, ChunkIndex(3, 3), Some(0), Some(0), 1).unwrap();
    let events = system.enter_chunk(&mut pos, &planet, ChunkIndex(3, 3), Some(0), Some(0), 1).unwrap();
    assert!(events.is_empty());
}

#[test]
fn moving_one_chunk_right_swaps_a_column() {
    let planet = Planet::new((8, 8), (4, 4));
    let mut system = PlayerPositionSystem::default();
    let mut pos = Position::default();
    system.enter_chunk(&mut pos, &planet, ChunkIndex(3, 3), Some(0), Some(0), 1).unwrap();
    let events = system.enter_chunk(&mut pos, &planet, ChunkIndex(3, 4), Some(0), Some(0), 1).unwrap();
    assert_eq!(unloads(&events), square(2..=4, 2..=2));
    assert_eq!(loads(&events), square(2..=4, 5..=5));
    let first_load = events.iter().position(|e| matches!(e, ChunkEvent::RequestingLoad(_))).unwrap();
    assert!(events[..first_load].iter().all(|e| matches!(e, ChunkEvent::RequestingUnload(_))));
}

#[test]
fn the_window_stops_at_the_first_row_and_column() {
    let planet = Planet::new((8, 8), (4, 4));
    let mut system = PlayerPositionSystem::default();
    let mut pos = Position::default();
    let events = system.enter_chunk(&mut pos, &planet, ChunkIndex(0, 1), Some(0), Some(0), 2).unwrap();
    assert_eq!(loads(&events), square(0..=2, 0..=3));
}

#[test]
fn the_window_stops_at_the_last_representable_index() {
    let planet = Planet::new((8, 8), (4, 4));
    let mut system = PlayerPositionSystem::default();
    let mut pos = Position::default();
    let events = system
        .enter_chunk(&mut pos, &planet, ChunkIndex(u64::MAX, u64::MAX - 1), Some(0), Some(0), 1)
        .unwrap();
    assert_eq!(loads(&events), square(u64::MAX - 1..=u64::MAX, u64::MAX - 2..=u64::MAX));
}

#[test]
fn a_render_distance_of_zero_loads_the_chunk_alone() {
    let planet = Planet::new((8, 8), (4, 4));
    let mut system = PlayerPositionSystem::default();
    let mut pos = Position::default();
    let events = system.enter_chunk(&mut pos, &planet, ChunkIndex(5, 6), Some(3), Some(3), 0).unwrap();
    assert_eq!(events, vec![ChunkEvent::RequestingLoad(ChunkIndex(5, 6))]);
}

#[test]
fn entering_with_a_tile_outside_the_chunk_changes_nothing() {
    let planet = Planet::new((8, 8), (4, 4));
    let mut system = PlayerPositionSystem::default();
    let mut pos = Position::new(ChunkIndex(1, 1), TileIndex(1, 1));
    assert_eq!(
        system.enter_chunk(&mut pos, &planet, ChunkIndex(3, 3), Some(4), Some(0), 1),
        Err(GameWorldError::TileProblem(TileError::IndexOutOfBounds))
    );
    assert_eq!(pos, Position::new(ChunkIndex(1, 1), TileIndex(1, 1)));
    let events = system.enter_chunk(&mut pos, &planet, ChunkIndex(1, 1), Some(0), Some(0), 0).unwrap();
    assert_eq!(events, vec![ChunkEvent::RequestingLoad(ChunkIndex(1, 1))]);
}

#[test]
fn hot_chunk_system_queues_requests_in_order() {
    let mut system = HotChunkSystem::new();
    system.queue_events(&vec![
        ChunkEvent::RequestingLoad(ChunkIndex(1, 1)),
        ChunkEvent::Loaded(ChunkIndex(9, 9)),
        ChunkEvent::RequestingUnload(ChunkIndex(0, 2)),
        ChunkEvent::RequestingLoad(ChunkIndex(1, 2)),
        ChunkEvent::FailedUnload(ChunkIndex(7, 7)),
    ]);
    system.queue_events(&vec![ChunkEvent::RequestingUnload(ChunkIndex(0, 3))]);
    let (unloads, loads) = system.take_work();
    assert_eq!(unloads, vec![ChunkIndex(0, 2), ChunkIndex(0, 3)]);
    assert_eq!(loads, vec![ChunkIndex(1, 1), ChunkIndex(1, 2)]);
    let (unloads, loads) = system.take_work();
    assert!(unloads.is_empty() && loads.is_empty());
}

#[test]
fn dummy_system_reports_after_a_hundred_and_one_updates() {
    let mut system = DummySystem { counter: 0 };
    let mut reports = 0;
    for _ in 0..101 {
        if system.tick() {
            reports += 1;
        }
    }
    assert_eq!(reports, 0);
    assert_eq!(system.counter, 101);
    assert!(system.tick());
    assert_eq!(system.counter, 1);
    let mut big = DummySystem { counter: u64::MAX };
    assert!(big.tick());
    assert_eq!(big.counter, 1);
}

#[test]
fn shadow_dummy_system_reports_after_a_hundred_and_thirty_one_updates() {
    let mut system = ShadowDummySystem { counter: 130 };
    assert!(!system.tick());
    assert_eq!(system.counter, 131);
    assert!(system.tick());
    assert_eq!(system.counter, 1);
}
