//! Ground tiles: their kinds, how a kind is drawn by depth, and their sprites.
use vstd::prelude::*;

use crate::entities::EntitySpriteRender;

use rand::Rng;

verus! {

/// An enumeration of all ground tile types.
#[derive(PartialEq, Eq, Structural, Copy, Clone, Debug, Hash, PartialOrd, Ord)]
pub enum TileTypes {
    /// Nothing drilleable here.
    Empty,
    /// Some dirt blocking your vision, worthless.
    Dirt,
    /// Bed rock, indestructible.
    BedRock,
    /// Plain old rock. Worthless but hard, and can fall on your head.
    Rock,
    /// Gassy rock, explodes when it gets ignited, careful with your dynamite.
    Gas,
    /// Hot rock, ouch.
    Lava,
    /// A treasure, can be sold for a premium.
    TreasureChest,
    /// An artifact, maybe some museum is interested?
    Skeleton,
    /// An artifact, there should be a museum interested in this.
    Fossile,
    /// An artifact, every museum wants this!
    MeteoriteShard,
    /// `Ag.2 S` for production of silver
    Acanthite,
    /// `Ba S O.4` for production of barium
    Barite,
    /// `Al (O H.3) + Al O O H` for production of aluminium
    Bauxite,
    /// `Cu.5 Fe S.4` for production of copper
    Bornite,
    /// `Sn O.2` for production of tin
    Cassiterite,
    /// `Cu.2 S` for production of copper
    Chalcocite,
    /// `(Fe, Mg) Cr.2 O.4` for production of chrome
    Chromite,
    /// `Hg S` for production of mercury
    Cinnabar,
    /// `Pb S` for production of lead
    Galena,
    /// `Au`, native gold
    Gold,
    /// `Fe.2 O.3` for production of iron
    Hematite,
    /// `Fe.3 O.4` for production of iron
    Magnetite,
    /// `Mo S.2` for production of molybdenum
    Molybdenite,
    /// `Mn O.2` for production of manganese
    Pyrolusite,
    /// `Pt As.2` for production of platinum
    Sperrylite,
    /// `Zn S` for production of zinc
    Sphalerite,
}

/// The component of a tile entity.
#[derive(PartialEq, Eq, Structural, Copy, Clone, Debug)]
pub struct TileBase {
    pub kind: TileTypes,
}

// ---------------------------------------------------------------------------
// Tile generation by depth.
//
// A depth section (the relative depth of a chunk in ten-thousandths) gives an
// exclusive bound on the depth level that is drawn. The drawn level and two
// rolls out of a hundred then pick the tile: the first roll picks a category
// (worthless ground, ore, or nothing), the second the kind within it.
// ---------------------------------------------------------------------------

/// The exclusive bound on the depth level drawn for a depth section.
pub open spec fn level_bound(section: usize) -> u64 {
    if section < 1250 { 3 }
    else if section < 2500 { 4 }
    else if section < 3750 { 5 }
    else if section < 5000 { 6 }
    else if section < 6250 { 7 }
    else if section < 7500 { 8 }
    else if section < 8750 { 9 }
    else if section < 10000 { 10 }
    else { 11 }
}

/// Below this first roll, worthless ground is drawn.
pub open spec fn useless_limit(level: u64) -> u64 {
    if level <= 3 { 35 }
    else if level <= 7 { 30 }
    else if level == 8 { 40 }
    else if level == 9 { 55 }
    else if level == 10 { 64 }
    else { 72 }
}

/// Below this first roll (and not below the worthless limit), an ore is drawn.
pub open spec fn ore_limit(level: u64) -> u64 {
    if level <= 3 { 92 }
    else if level == 4 { 93 }
    else if level == 5 { 94 }
    else if level == 6 { 95 }
    else if level == 7 { 97 }
    else if level == 8 { 98 }
    else if level == 9 { 99 }
    else { 100 }
}

/// The worthless ground drawn at a level by the second roll.
pub open spec fn useless_kind(level: u64, two: u64) -> TileTypes {
    if level <= 3 {
        if two < 99 { TileTypes::Dirt } else { TileTypes::Fossile }
    } else if level == 4 {
        if two < 90 { TileTypes::Dirt } else if two < 98 { TileTypes::Rock } else { TileTypes::Fossile }
    } else if level == 5 {
        if two < 85 { TileTypes::Dirt } else if two < 98 { TileTypes::Rock } else { TileTypes::Fossile }
    } else if level == 6 {
        if two < 70 { TileTypes::Dirt } else if two < 94 { TileTypes::Rock }
        else if two < 98 { TileTypes::Lava } else { TileTypes::Fossile }
    } else if level == 7 {
        if two < 50 { TileTypes::Dirt } else if two < 88 { TileTypes::Rock }
        else if two < 97 { TileTypes::Lava } else { TileTypes::Fossile }
    } else if level == 8 {
        if two < 36 { TileTypes::Dirt } else if two < 86 { TileTypes::Rock }
        else if two < 96 { TileTypes::Lava } else if two < 97 { TileTypes::Gas } else { TileTypes::Fossile }
    } else if level == 9 {
        if two < 15 { TileTypes::Dirt } else if two < 65 { TileTypes::Rock }
        else if two < 82 { TileTypes::Lava } else if two < 95 { TileTypes::Gas } else { TileTypes::Fossile }
    } else if level == 10 {
        if two < 10 { TileTypes::Dirt } else if two < 55 { TileTypes::Rock }
        else if two < 77 { TileTypes::Lava } else if two < 97 { TileTypes::Gas } else { TileTypes::Fossile }
    } else {
        if two < 1 { TileTypes::Dirt } else if two < 42 { TileTypes::Rock }
        else if two < 65 { TileTypes::Lava } else if two < 99 { TileTypes::Gas } else { TileTypes::Fossile }
    }
}

/// The ore drawn at a level by the second roll.
pub open spec fn ore_kind(level: u64, two: u64) -> TileTypes {
    if level <= 3 {
        if two < 50 { TileTypes::Magnetite } else { TileTypes::Pyrolusite }
    } else if level == 4 {
        if two < 40 { TileTypes::Magnetite } else if two < 80 { TileTypes::Pyrolusite } else { TileTypes::Bauxite }
    } else if level == 5 {
        if two < 30 { TileTypes::Magnetite } else if two < 60 { TileTypes::Pyrolusite }
        else if two < 80 { TileTypes::Bauxite } else { TileTypes::Cassiterite }
    } else if level == 6 {
        if two < 20 { TileTypes::Magnetite } else if two < 40 { TileTypes::Pyrolusite }
        else if two < 62 { TileTypes::Bauxite } else if two < 84 { TileTypes::Cassiterite }
        else { TileTypes::Chromite }
    } else if level == 7 {
        if two < 16 { TileTypes::Magnetite } else if two < 32 { TileTypes::Pyrolusite }
        else if two < 50 { TileTypes::Bauxite } else if two < 68 { TileTypes::Cassiterite }
        else if two < 84 { TileTypes::Chromite } else { TileTypes::Bornite }
    } else if level == 8 {
        if two < 8 { TileTypes::Magnetite } else if two < 16 { TileTypes::Pyrolusite }
        else if two < 32 { TileTypes::Bauxite } else if two < 48 { TileTypes::Cassiterite }
        else if two < 68 { TileTypes::Chromite } else if two < 88 { TileTypes::Bornite }
        else { TileTypes::Galena }
    } else if level == 9 {
        if two < 4 { TileTypes::Magnetite } else if two < 8 { TileTypes::Pyrolusite }
        else if two < 14 { TileTypes::Bauxite } else if two < 22 { TileTypes::Cassiterite }
        else if two < 42 { TileTypes::Chromite } else if two < 62 { TileTypes::Bornite }
        else if two < 90 { TileTypes::Galena } else { TileTypes::Molybdenite }
    } else if level == 10 {
        if two < 1 { TileTypes::Magnetite } else if two < 2 { TileTypes::Pyrolusite }
        else if two < 7 { TileTypes::Bauxite } else if two < 12 { TileTypes::Cassiterite }
        else if two < 32 { TileTypes::Chromite } else if two < 52 { TileTypes::Bornite }
        else if two < 70 { TileTypes::Galena } else if two < 88 { TileTypes::Molybdenite }
        else { TileTypes::Gold }
    } else {
        if two < 1 { TileTypes::Magnetite } else if two < 2 { TileTypes::Pyrolusite }
        else if two < 4 { TileTypes::Bauxite } else if two < 10 { TileTypes::Cassiterite }
        else if two < 24 { TileTypes::Chromite } else if two < 40 { TileTypes::Bornite }
        else if two < 64 { TileTypes::Galena } else if two < 80 { TileTypes::Molybdenite }
        else { TileTypes::Gold }
    }
}

/// The tile drawn at a depth level by two rolls out of a hundred.
/// Levels above eleven have no table and give `Empty`.
pub open spec fn tile_for_rolls(level: u64, one: u64, two: u64) -> TileTypes {
    if level > 11 {
        TileTypes::Empty
    } else if one < useless_limit(level) {
        useless_kind(level, two)
    } else if one < ore_limit(level) {
        ore_kind(level, two)
    } else {
        TileTypes::Empty
    }
}

/// Whether `tile` can be drawn for a chunk at the given depth section.
pub open spec fn can_be_drawn(section: usize, tile: TileTypes) -> bool {
    exists|level: u64, one: u64, two: u64|
        level < level_bound(section) && one < 100 && two < 100
            && tile_for_rolls(level, one, two) == tile
}

/// The shallowest depth level at which a tile kind is generated.
pub open spec fn first_level(tile: TileTypes) -> u64 {
    match tile {
        TileTypes::Empty | TileTypes::Fossile | TileTypes::Dirt => 0,
        TileTypes::Magnetite | TileTypes::Pyrolusite => 3,
        TileTypes::Rock | TileTypes::Bauxite => 4,
        TileTypes::Cassiterite | TileTypes::Cinnabar => 5,
        TileTypes::Lava | TileTypes::Chromite => 6,
        TileTypes::Bornite => 7,
        TileTypes::Gas | TileTypes::Galena => 8,
        TileTypes::Molybdenite => 9,
        TileTypes::Gold => 10,
        _ => 12,
    }
}

/// The exclusive bound on the depth level drawn for a depth section.
pub fn depth_level_bound(section: usize) -> (r: u64)
    ensures
        r == level_bound(section),
        3 <= r <= 11,
{
    if section < 1250 {
        3
    } else if section >= 1250 && section < 2500 {
        4
    } else if section >= 2500 && section < 3750 {
        5
    } else if section >= 3750 && section < 5000 {
        6
    } else if section >= 5000 && section < 6250 {
        7
    } else if section >= 6250 && section < 7500 {
        8
    } else if section >= 7500 && section < 8750 {
        9
    } else if section >= 8750 && section < 10000 {
        10
    } else {
        11
    }
}

/// The tile drawn at a depth level by two rolls out of a hundred.
pub fn tile_from_rolls(level: u64, one: u64, two: u64) -> (r: TileTypes)
    ensures
        r == tile_for_rolls(level, one, two),
{
    if level <= 3 {
        if one < 35 {
            if two < 99 { TileTypes::Dirt } else { TileTypes::Fossile }
        } else if one < 92 {
            if two < 50 { TileTypes::Magnetite } else { TileTypes::Pyrolusite }
        } else {
            TileTypes::Empty
        }
    } else if level == 4 {
        if one < 30 {
            if two < 90 { TileTypes::Dirt } else if two < 98 { TileTypes::Rock } else { TileTypes::Fossile }
        } else if one < 93 {
            if two < 40 { TileTypes::Magnetite } else if two < 80 { TileTypes::Pyrolusite }
            else { TileTypes::Bauxite }
        } else {
            TileTypes::Empty
        }
    } else if level == 5 {
        if one < 30 {
            if two < 85 { TileTypes::Dirt } else if two < 98 { TileTypes::Rock } else { TileTypes::Fossile }
        } else if one < 94 {
            if two < 30 { TileTypes::Magnetite } else if two < 60 { TileTypes::Pyrolusite }
            else if two < 80 { TileTypes::Bauxite } else { TileTypes::Cassiterite }
        } else {
            TileTypes::Empty
        }
    } else if level == 6 {
        if one < 30 {
            if two < 70 { TileTypes::Dirt } else if two < 94 { TileTypes::Rock }
            else if two < 98 { TileTypes::Lava } else { TileTypes::Fossile }
        } else if one < 95 {
            if two < 20 { TileTypes::Magnetite } else if two < 40 { TileTypes::Pyrolusite }
            else if two < 62 { TileTypes::Bauxite } else if two < 84 { TileTypes::Cassiterite }
            else { TileTypes::Chromite }
        } else {
            TileTypes::Empty
        }
    } else if level == 7 {
        if one < 30 {
            if two < 50 { TileTypes::Dirt } else if two < 88 { TileTypes::Rock }
            else if two < 97 { TileTypes::Lava } else { TileTypes::Fossile }
        } else if one < 97 {
            if two < 16 { TileTypes::Magnetite } else if two < 32 { TileTypes::Pyrolusite }
            else if two < 50 { TileTypes::Bauxite } else if two < 68 { TileTypes::Cassiterite }
            else if two < 84 { TileTypes::Chromite } else { TileTypes::Bornite }
        } else {
            TileTypes::Empty
        }
    } else if level == 8 {
        if one < 40 {
            if two < 36 { TileTypes::Dirt } else if two < 86 { TileTypes::Rock }
            else if two < 96 { TileTypes::Lava } else if two == 96 { TileTypes::Gas }
            else { TileTypes::Fossile }
        } else if one < 98 {
            if two < 8 { TileTypes::Magnetite } else if two < 16 { TileTypes::Pyrolusite }
            else if two < 32 { TileTypes::Bauxite } else if two < 48 { TileTypes::Cassiterite }
            else if two < 68 { TileTypes::Chromite } else if two < 88 { TileTypes::Bornite }
            else { TileTypes::Galena }
        } else {
            TileTypes::Empty
        }
    } else if level == 9 {
        if one < 55 {
            if two < 15 { TileTypes::Dirt } else if two < 65 { TileTypes::Rock }
            else if two < 82 { TileTypes::Lava } else if two < 95 { TileTypes::Gas }
            else { TileTypes::Fossile }
        } else if one < 99 {
            if two < 4 { TileTypes::Magnetite } else if two < 8 { TileTypes::Pyrolusite }
            else if two < 14 { TileTypes::Bauxite } else if two < 22 { TileTypes::Cassiterite }
            else if two < 42 { TileTypes::Chromite } else if two < 62 { TileTypes::Bornite }
            else if two < 90 { TileTypes::Galena } else { TileTypes::Molybdenite }
        } else {
            TileTypes::Empty
        }
    } else if level == 10 {
        if one < 64 {
            if two < 10 { TileTypes::Dirt } else if two < 55 { TileTypes::Rock }
            else if two < 77 { TileTypes::Lava } else if two < 97 { TileTypes::Gas }
            else { TileTypes::Fossile }
        } else if one < 100 {
            if two < 1 { TileTypes::Magnetite } else if two < 2 { TileTypes::Pyrolusite }
            else if two < 7 { TileTypes::Bauxite } else if two < 12 { TileTypes::Cassiterite }
            else if two < 32 { TileTypes::Chromite } else if two < 52 { TileTypes::Bornite }
            else if two < 70 { TileTypes::Galena } else if two < 88 { TileTypes::Molybdenite }
            else { TileTypes::Gold }
        } else {
            TileTypes::Empty
        }
    } else if level == 11 {
        if one < 72 {
            if two < 1 { TileTypes::Dirt } else if two < 42 { TileTypes::Rock }
            else if two < 65 { TileTypes::Lava } else if two < 99 { TileTypes::Gas }
            else { TileTypes::Fossile }
        } else if one < 100 {
            if two < 1 { TileTypes::Magnetite } else if two < 2 { TileTypes::Pyrolusite }
            else if two < 4 { TileTypes::Bauxite } else if two < 10 { TileTypes::Cassiterite }
            else if two < 24 { TileTypes::Chromite } else if two < 40 { TileTypes::Bornite }
            else if two < 64 { TileTypes::Galena } else if two < 80 { TileTypes::Molybdenite }
            else { TileTypes::Gold }
        } else {
            TileTypes::Empty
        }
    } else {
        TileTypes::Empty
    }
}

/// Draws a number uniformly from `0..bound` with the thread-local generator.
/// Calls `rand::Rng::gen_range(0, bound)` on `rand::thread_rng()`, which
/// returns a value in the half-open range and panics on an empty range.
/// Which value comes back is chance, and nothing more is claimed of it.
#[verifier::external_body]
fn roll_below(bound: u64) -> (r: u64)
    requires
        bound > 0,
    ensures
        r < bound,
{
    rand::thread_rng().gen_range(0, bound)
}

/// Draws a random tile for a chunk at the given depth section
/// (its relative depth in ten-thousandths).
pub fn random_tile(depth_section: usize) -> (r: TileTypes)
    ensures
        can_be_drawn(depth_section, r),
{
    let upper_bound = depth_level_bound(depth_section);
    let out_of_hundred_one = roll_below(100);
    let out_of_hundred_two = roll_below(100);
    let level = roll_below(upper_bound);
    let r = tile_from_rolls(level, out_of_hundred_one, out_of_hundred_two);
    r
}

/// Every tile drawn at a depth level lies at or below the shallowest level of its kind
/// (levels up to three count as three), so e.g. gas appears from level eight and gold
/// from level ten on.
pub proof fn lemma_tiles_respect_depth(level: u64, one: u64, two: u64)
    ensures
        first_level(tile_for_rolls(level, one, two)) <= if level <= 3 { 3 } else { level },
{
}

/// A drawable tile is never bed rock, an artifact other than a fossil, or an ore that has
/// no place in the tables (such as cinnabar or sperrylite), whatever the depth.
pub proof fn lemma_drawable_kinds(section: usize, tile: TileTypes)
    requires
        can_be_drawn(section, tile),
    ensures
        first_level(tile) <= 10,
        tile != TileTypes::Cinnabar,
{
    let (level, one, two) = choose|level: u64, one: u64, two: u64|
        level < level_bound(section) && one < 100 && two < 100
            && tile_for_rolls(level, one, two) == tile;
    lemma_tiles_respect_depth(level, one, two);
}

/// A deeper chunk can get every tile kind a shallower one can: the drawable kinds only
/// grow with the depth section.
pub proof fn lemma_drawable_grows_with_depth(shallow: usize, deep: usize, tile: TileTypes)
    requires
        shallow <= deep,
        can_be_drawn(shallow, tile),
    ensures
        can_be_drawn(deep, tile),
{
    let (level, one, two) = choose|level: u64, one: u64, two: u64|
        level < level_bound(shallow) && one < 100 && two < 100
            && tile_for_rolls(level, one, two) == tile;
    assert(level_bound(shallow) <= level_bound(deep));
    assert(level < level_bound(deep) && one < 100 && two < 100 && tile_for_rolls(level, one, two) == tile);
}

/// The place of a worthless kind in the order in which the second roll reaches it:
/// dirt, rock, lava, gas, fossil; any other kind comes after them.
pub open spec fn worthless_rank(tile: TileTypes) -> int {
    match tile {
        TileTypes::Dirt => 0,
        TileTypes::Rock => 1,
        TileTypes::Lava => 2,
        TileTypes::Gas => 3,
        TileTypes::Fossile => 4,
        _ => 5,
    }
}

/// The place of an ore in the order in which the second roll reaches it: magnetite,
/// pyrolusite, bauxite, cassiterite, chromite, bornite, galena, molybdenite, gold; any
/// other kind comes after them.
pub open spec fn ore_rank(tile: TileTypes) -> int {
    match tile {
        TileTypes::Magnetite => 0,
        TileTypes::Pyrolusite => 1,
        TileTypes::Bauxite => 2,
        TileTypes::Cassiterite => 3,
        TileTypes::Chromite => 4,
        TileTypes::Bornite => 5,
        TileTypes::Galena => 6,
        TileTypes::Molybdenite => 7,
        TileTypes::Gold => 8,
        _ => 9,
    }
}

/// The ends of the depth tables, at every level up to eleven: a first roll of 0 is always
/// worthless ground, whose lowest second roll gives dirt and whose highest gives a fossil;
/// a first roll of 91 is always an ore, whose lowest second roll gives magnetite; a first
/// roll of 99 gives nothing down to level nine and gold, with the highest second roll,
/// from level ten on.
pub proof fn lemma_table_ends(level: u64)
    requires
        level <= 11,
    ensures
        tile_for_rolls(level, 0, 0) == TileTypes::Dirt,
        tile_for_rolls(level, 0, 99) == TileTypes::Fossile,
        tile_for_rolls(level, 91, 0) == TileTypes::Magnetite,
        level <= 9 ==> tile_for_rolls(level, 99, 99) == TileTypes::Empty,
        level >= 10 ==> tile_for_rolls(level, 99, 99) == TileTypes::Gold,
{
}

/// Within worthless ground (a first roll of 0, worthless at every level), a higher second
/// roll never gives a kind earlier in the order dirt, rock, lava, gas, fossil; and only
/// those kinds come out.
pub proof fn lemma_worthless_order(level: u64, low: u64, high: u64)
    requires
        level <= 11,
        low <= high < 100,
    ensures
        worthless_rank(tile_for_rolls(level, 0, low)) <= worthless_rank(tile_for_rolls(level, 0, high)),
        worthless_rank(tile_for_rolls(level, 0, high)) < 5,
{
}

/// Within ores (a first roll of 91, an ore at every level), a higher second roll never
/// gives an ore earlier in the order magnetite, pyrolusite, bauxite, cassiterite,
/// chromite, bornite, galena, molybdenite, gold; and only those ores come out.
pub proof fn lemma_ore_order(level: u64, low: u64, high: u64)
    requires
        level <= 11,
        low <= high < 100,
    ensures
        ore_rank(tile_for_rolls(level, 91, low)) <= ore_rank(tile_for_rolls(level, 91, high)),
        ore_rank(tile_for_rolls(level, 91, high)) < 9,
{
}

/// Dirt thins out with depth: a second roll that gives dirt as worthless ground at a
/// level gives dirt at every shallower level too.
pub proof fn lemma_dirt_thins_with_depth(shallow: u64, deep: u64, two: u64)
    requires
        shallow <= deep <= 11,
        tile_for_rolls(deep, 0, two) == TileTypes::Dirt,
    ensures
        tile_for_rolls(shallow, 0, two) == TileTypes::Dirt,
{
}

/// Magnetite thins out with depth: a second roll that gives magnetite as an ore at a
/// level gives magnetite at every shallower level too.
pub proof fn lemma_magnetite_thins_with_depth(shallow: u64, deep: u64, two: u64)
    requires
        shallow <= deep <= 11,
        tile_for_rolls(deep, 91, two) == TileTypes::Magnetite,
    ensures
        tile_for_rolls(shallow, 91, two) == TileTypes::Magnetite,
{
}

/// Empty tiles thin out with depth: rolls that give nothing at a level give nothing at
/// every shallower level too.
pub proof fn lemma_empty_thins_with_depth(shallow: u64, deep: u64, one: u64, two: u64)
    requires
        shallow <= deep <= 11,
        tile_for_rolls(deep, one, two) == TileTypes::Empty,
    ensures
        tile_for_rolls(shallow, one, two) == TileTypes::Empty,
{
}

// ---------------------------------------------------------------------------
// Sprites of the tile spritesheet.
// ---------------------------------------------------------------------------

/// The tile shown by each sprite of the tile spritesheet, in sheet order.
pub open spec fn spec_ore_sprite_tile(n: int) -> Option<TileTypes> {
    if n == 0 { Some(TileTypes::Dirt) }
    else if n == 1 { Some(TileTypes::Gold) }
    else if n == 2 { Some(TileTypes::Empty) }
    else if n == 3 { Some(TileTypes::Bauxite) }
    else if n == 4 { Some(TileTypes::Bornite) }
    else if n == 5 { Some(TileTypes::Chromite) }
    else if n == 6 { Some(TileTypes::Cassiterite) }
    else if n == 7 { Some(TileTypes::Cinnabar) }
    else if n == 8 { Some(TileTypes::Lava) }
    else if n == 9 { Some(TileTypes::Rock) }
    else if n == 10 { Some(TileTypes::Gas) }
    else if n == 11 { Some(TileTypes::Galena) }
    else if n == 12 { Some(TileTypes::Magnetite) }
    else if n == 13 { Some(TileTypes::Pyrolusite) }
    else if n == 14 { Some(TileTypes::Fossile) }
    else if n == 15 { Some(TileTypes::Molybdenite) }
    else { None }
}

/// The tile shown by sprite `sprite_number` of the tile spritesheet, if any.
pub fn ore_sprite_tile(sprite_number: usize) -> (r: Option<TileTypes>)
    ensures
        r == spec_ore_sprite_tile(sprite_number as int),
{
    match sprite_number {
        0 => Some(TileTypes::Dirt),
        1 => Some(TileTypes::Gold),
        2 => Some(TileTypes::Empty),
        3 => Some(TileTypes::Bauxite),
        4 => Some(TileTypes::Bornite),
        5 => Some(TileTypes::Chromite),
        6 => Some(TileTypes::Cassiterite),
        7 => Some(TileTypes::Cinnabar),
        8 => Some(TileTypes::Lava),
        9 => Some(TileTypes::Rock),
        10 => Some(TileTypes::Gas),
        11 => Some(TileTypes::Galena),
        12 => Some(TileTypes::Magnetite),
        13 => Some(TileTypes::Pyrolusite),
        14 => Some(TileTypes::Fossile),
        15 => Some(TileTypes::Molybdenite),
        _ => None,
    }
}

/// The sprites of a tile spritesheet of 4 x 4 sprites, in sheet order (row by row),
/// each with the tile it is registered for.
pub fn ore_sprites() -> (r: Vec<(usize, EntitySpriteRender)>)
    ensures
        r@.len() == 16,
        forall|n: int| 0 <= n < 16 ==> #[trigger] r@[n] == (n as usize,
            EntitySpriteRender::Ore(spec_ore_sprite_tile(n).unwrap())),
{
    let sprite_count: (usize, usize) = (4, 4);
    let mut r: Vec<(usize, EntitySpriteRender)> = Vec::new();
    let mut y: usize = 0;
    while y < sprite_count.0
        invariant
            sprite_count == (4usize, 4usize),
            y <= 4,
            r@.len() == y * 4,
            forall|n: int| 0 <= n < r@.len() ==> #[trigger] r@[n] == (n as usize,
                EntitySpriteRender::Ore(spec_ore_sprite_tile(n).unwrap())),
        decreases 4 - y,
    {
        let mut x: usize = 0;
        while x < sprite_count.1
            invariant
                sprite_count == (4usize, 4usize),
                y < 4,
                x <= 4,
                r@.len() == y * 4 + x,
                forall|n: int| 0 <= n < r@.len() ==> #[trigger] r@[n] == (n as usize,
                    EntitySpriteRender::Ore(spec_ore_sprite_tile(n).unwrap())),
            decreases 4 - x,
        {
            let sprite_number = y * sprite_count.1 + x;
            match ore_sprite_tile(sprite_number) {
                Some(tile) => {
                    r.push((sprite_number, EntitySpriteRender::Ore(tile)));
                },
                None => {},
            }
            x = x + 1;
        }
        y = y + 1;
    }
    r
}

/// The place of each tile kind on the 4 x 4 tile spritesheet, row by row, if it has one:
/// first row dirt, gold, empty, bauxite; second row bornite, chromite, cassiterite,
/// cinnabar; third row lava, rock, gas, galena; fourth row magnetite, pyrolusite, fossil,
/// molybdenite.
pub open spec fn sheet_place(tile: TileTypes) -> Option<(int, int)> {
    match tile {
        TileTypes::Dirt => Some((0, 0)),
        TileTypes::Gold => Some((0, 1)),
        TileTypes::Empty => Some((0, 2)),
        TileTypes::Bauxite => Some((0, 3)),
        TileTypes::Bornite => Some((1, 0)),
        TileTypes::Chromite => Some((1, 1)),
        TileTypes::Cassiterite => Some((1, 2)),
        TileTypes::Cinnabar => Some((1, 3)),
        TileTypes::Lava => Some((2, 0)),
        TileTypes::Rock => Some((2, 1)),
        TileTypes::Gas => Some((2, 2)),
        TileTypes::Galena => Some((2, 3)),
        TileTypes::Magnetite => Some((3, 0)),
        TileTypes::Pyrolusite => Some((3, 1)),
        TileTypes::Fossile => Some((3, 2)),
        TileTypes::Molybdenite => Some((3, 3)),
        _ => None,
    }
}

/// Each sprite of the tile spritesheet is registered for the tile kind drawn at its place
/// on the sheet (row `n / 4`, column `n % 4`), and a tile kind with no place on the sheet
/// has no sprite.
pub proof fn lemma_ore_sprites_follow_the_sheet(n: int, tile: TileTypes)
    ensures
        0 <= n < 16 ==> (spec_ore_sprite_tile(n) == Some(tile) <==> sheet_place(tile) == Some((n / 4, n % 4))),
        sheet_place(tile) is None ==> spec_ore_sprite_tile(n) != Some(tile),
        (n < 0 || n >= 16) ==> spec_ore_sprite_tile(n) is None,
{
}

/// No two sprites of the tile spritesheet show the same tile.
pub proof fn lemma_ore_sprites_distinct(a: int, b: int)
    requires
        0 <= a < 16,
        0 <= b < 16,
        a != b,
    ensures
        spec_ore_sprite_tile(a) != spec_ore_sprite_tile(b),
{
}

} // verus!
