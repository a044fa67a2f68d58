use toppa_drill::entities::{
    drill_sprites, player_sprites, tracks_sprites, DrillTypes, EntitySpriteRender, PlayerParts, ShipTypes,
};
use toppa_drill::tiles::{depth_level_bound, ore_sprite_tile, ore_sprites, random_tile, tile_from_rolls, TileTypes};

fn drawable(section: usize) -> Vec<TileTypes> {
    let bound = depth_level_bound(section);
    let mut kinds = Vec::new();
    for level in 0..bound {
        for one in 0..100 {
            for two in 0..100 {
                let t = tile_from_rolls(level, one, two);
                if !kinds.contains(&t) {
                    kinds.push(t);
                }
            }
        }
    }
    kinds
}

#[test]
fn deeper_sections_draw_from_at_least_as_many_levels() {
    let sections = [0usize, 1249, 1250, 3000, 5000, 7499, 8750, 9999, 10000, 20000];
    for pair in sections.windows(2) {
        assert!(depth_level_bound(pair[0]) <= depth_level_bound(pair[1]));
    }
}

#[test]
fn depth_level_bound_grows_in_eighths() {
    assert_eq!(depth_level_bound(0), 3);
    assert_eq!(depth_level_bound(1249), 3);
    assert_eq!(depth_level_bound(1250), 4);
    assert_eq!(depth_level_bound(2500), 5);
    assert_eq!(depth_level_bound(3750), 6);
    assert_eq!(depth_level_bound(5000), 7);
    assert_eq!(depth_level_bound(6250), 8);
    assert_eq!(depth_level_bound(7500), 9);
    assert_eq!(depth_level_bound(8750), 10);
    assert_eq!(depth_level_bound(9999), 10);
    assert_eq!(depth_level_bound(10000), 11);
    assert_eq!(depth_level_bound(usize::MAX), 11);
}

#[test]
fn tile_from_rolls_at_shallow_levels() {
    assert_eq!(tile_from_rolls(0, 0, 0), TileTypes::Dirt);
    assert_eq!(tile_from_rolls(3, 34, 99), TileTypes::Fossile);
    assert_eq!(tile_from_rolls(2, 35, 49), TileTypes::Magnetite);
    assert_eq!(tile_from_rolls(1, 91, 50), TileTypes::Pyrolusite);
    assert_eq!(tile_from_rolls(3, 92, 0), TileTypes::Empty);
    assert_eq!(tile_from_rolls(4, 29, 95), TileTypes::Rock);
    assert_eq!(tile_from_rolls(4, 92, 80), TileTypes::Bauxite);
    assert_eq!(tile_from_rolls(5, 93, 80), TileTypes::Cassiterite);
}

#[test]
fn tile_from_rolls_at_deep_levels() {
    assert_eq!(tile_from_rolls(6, 10, 95), TileTypes::Lava);
    assert_eq!(tile_from_rolls(6, 94, 84), TileTypes::Chromite);
    assert_eq!(tile_from_rolls(7, 96, 84), TileTypes::Bornite);
    assert_eq!(tile_from_rolls(8, 39, 96), TileTypes::Gas);
    assert_eq!(tile_from_rolls(8, 39, 97), TileTypes::Fossile);
    assert_eq!(tile_from_rolls(8, 97, 88), TileTypes::Galena);
    assert_eq!(tile_from_rolls(9, 98, 90), TileTypes::Molybdenite);
    assert_eq!(tile_from_rolls(10, 99, 88), TileTypes::Gold);
    assert_eq!(tile_from_rolls(10, 63, 96), TileTypes::Gas);
    assert_eq!(tile_from_rolls(11, 71, 0), TileTypes::Dirt);
    assert_eq!(tile_from_rolls(11, 72, 79), TileTypes::Molybdenite);
    assert_eq!(tile_from_rolls(11, 99, 99), TileTypes::Gold);
    assert_eq!(tile_from_rolls(12, 0, 0), TileTypes::Empty);
}

#[test]
fn ores_appear_at_their_depth_levels() {
    let first_levels = [
        (TileTypes::Rock, 4),
        (TileTypes::Bauxite, 4),
        (TileTypes::Cassiterite, 5),
        (TileTypes::Lava, 6),
        (TileTypes::Chromite, 6),
        (TileTypes::Bornite, 7),
        (TileTypes::Gas, 8),
        (TileTypes::Galena, 8),
        (TileTypes::Molybdenite, 9),
        (TileTypes::Gold, 10),
    ];
    for (kind, level) in first_levels.iter() {
        for below in 0..*level {
            for one in 0..100 {
                for two in 0..100 {
                    assert_ne!(tile_from_rolls(below, one, two), *kind);
                }
            }
        }
    }
}

#[test]
fn random_tile_draws_from_the_tables_of_its_depth() {
    for &section in [0usize, 3000, 6300, 9000, 20000].iter() {
        let kinds = drawable(section);
        for _ in 0..300 {
            let t = random_tile(section);
            assert!(kinds.contains(&t), "{:?} at {}", t, section);
        }
    }
}

#[test]
fn random_tile_never_draws_bed_rock() {
    for _ in 0..500 {
        assert_ne!(random_tile(12000), TileTypes::BedRock);
        assert_ne!(random_tile(12000), TileTypes::Cinnabar);
    }
}

#[test]
fn ore_sprites_cover_the_sheet_in_order() {
    let sprites = ore_sprites();
    assert_eq!(sprites.len(), 16);
    assert_eq!(sprites[0], (0, EntitySpriteRender::Ore(TileTypes::Dirt)));
    assert_eq!(sprites[1], (1, EntitySpriteRender::Ore(TileTypes::Gold)));
    assert_eq!(sprites[7], (7, EntitySpriteRender::Ore(TileTypes::Cinnabar)));
    assert_eq!(sprites[15], (15, EntitySpriteRender::Ore(TileTypes::Molybdenite)));
    for (n, (number, _)) in sprites.iter().enumerate() {
        assert_eq!(*number, n);
    }
}

#[test]
fn ore_sprite_tile_knows_sixteen_sprites() {
    assert_eq!(ore_sprite_tile(2), Some(TileTypes::Empty));
    assert_eq!(ore_sprite_tile(14), Some(TileTypes::Fossile));
    assert_eq!(ore_sprite_tile(16), None);
}

#[test]
fn player_part_sprite_tables() {
    let drills = drill_sprites();
    assert_eq!(drills.len(), 6);
    assert_eq!(drills[1], (1, EntitySpriteRender::Player(PlayerParts::Drill(DrillTypes::C45U))));
    assert_eq!(drills[5], (5, EntitySpriteRender::Player(PlayerParts::Drill(DrillTypes::HS6_5_2_5Diamond))));
    assert_eq!(player_sprites(), vec![(0, EntitySpriteRender::Player(PlayerParts::Ship(ShipTypes::NotImplemented)))]);
    assert_eq!(tracks_sprites(), vec![(0, EntitySpriteRender::Player(PlayerParts::Tracks))]);
}
