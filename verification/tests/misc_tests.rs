use toppa_drill::components::{Position, TagGenerator};
use toppa_drill::entities::{EntitySpriteRender, PlayerParts};
use toppa_drill::game_world::{ChunkIndex, TileIndex};
use toppa_drill::resources::{GameSprites, ToppaSpriteSheet};
use toppa_drill::session::GameSessionData;
use toppa_drill::states::{
    is_main_menu_asset, menu_screen_of_asset, window_transition, BaseStateButtons, CentreButtons,
    CreditsButtons, GameInfo, GameStartTransitionButtons, LoadMenuButtons, MenuScreens, MenuTransition,
    NewGameButtons,
};
use toppa_drill::text::decimal_string;
use toppa_drill::tiles::TileTypes;

#[test]
fn tag_generator_hands_out_ids_from_one() {
    let mut tags = TagGenerator::default();
    assert_eq!(tags.new_player_tag().id, 1);
    assert_eq!(tags.new_player_tag().id, 2);
    assert_eq!(tags.new_npc_tag().id, 1);
    assert_eq!(tags.new_player_tag().id, 3);
    assert_eq!(tags.new_npc_tag().id, 2);
    assert_eq!(tags.player_count(), 3);
    assert_eq!(tags.npc_count(), 2);
}

#[test]
fn default_position_is_the_first_tile_of_the_first_chunk() {
    assert_eq!(Position::default(), Position::new(ChunkIndex(0, 0), TileIndex(0, 0)));
}

#[test]
fn game_sprites_register_and_override() {
    let mut sprites: GameSprites<u32> = GameSprites::new();
    let dirt = EntitySpriteRender::Ore(TileTypes::Dirt);
    let tracks = EntitySpriteRender::Player(PlayerParts::Tracks);
    assert_eq!(sprites.add(dirt, 1), None);
    assert_eq!(sprites.add(tracks, 2), None);
    assert_eq!(sprites.get(&dirt), Some(&1));
    assert_eq!(sprites.add(dirt, 5), Some(1));
    assert_eq!(sprites.get(&dirt), Some(&5));
    sprites.remove(dirt);
    assert_eq!(sprites.get(&dirt), None);
    assert_eq!(sprites.get(&tracks), Some(&2));
    sprites.remove(dirt);
    assert_eq!(sprites.get(&tracks), Some(&2));
    let empty: GameSprites<u32> = GameSprites::default();
    assert_eq!(empty.get(&tracks), None);
}

#[test]
fn spritesheets_have_their_texture_ids() {
    assert_eq!(ToppaSpriteSheet::Player.texture_id(), 0);
    assert_eq!(ToppaSpriteSheet::Drill.texture_id(), 1);
    assert_eq!(ToppaSpriteSheet::Tracks.texture_id(), 2);
    assert_eq!(ToppaSpriteSheet::Rotor.texture_id(), 3);
    assert_eq!(ToppaSpriteSheet::Tiles.texture_id(), 4);
}

#[test]
fn new_session_has_an_empty_planet() {
    let session = GameSessionData::new("Mark".to_string(), (128, 128), (32, 32));
    assert_eq!(session.game_name, "Mark");
    assert_eq!(session.planet.planet_dim, (128, 128));
    assert_eq!(session.planet.chunk_dim, (32, 32));
    assert!(session.planet.iter_chunks().is_empty());
}

#[test]
fn window_events_quit_on_close_or_escape() {
    assert_eq!(window_transition(true, false), MenuTransition::Quit);
    assert_eq!(window_transition(false, true), MenuTransition::Quit);
    assert_eq!(window_transition(false, false), MenuTransition::Stay);
}

#[test]
fn main_menu_buttons_open_their_menus() {
    assert_eq!(CentreButtons::click(Some(CentreButtons::NewGame)), MenuTransition::Push(MenuScreens::NewGame));
    assert_eq!(CentreButtons::click(Some(CentreButtons::Load)), MenuTransition::Push(MenuScreens::LoadGame));
    assert_eq!(CentreButtons::click(Some(CentreButtons::Options)), MenuTransition::Push(MenuScreens::Options));
    assert_eq!(CentreButtons::click(Some(CentreButtons::Credits)), MenuTransition::Push(MenuScreens::Credits));
    assert_eq!(CentreButtons::click(Some(CentreButtons::Exit)), MenuTransition::Quit);
    assert_eq!(CentreButtons::click(None), MenuTransition::Stay);
}

#[test]
fn other_buttons_lead_back_or_on() {
    assert_eq!(CreditsButtons::click(Some(CreditsButtons::Back)), MenuTransition::Pop);
    assert_eq!(LoadMenuButtons::click(Some(LoadMenuButtons::Back)), MenuTransition::Pop);
    assert_eq!(LoadMenuButtons::click(Some(LoadMenuButtons::Load)), MenuTransition::LoadSavegame);
    assert_eq!(NewGameButtons::click(Some(NewGameButtons::Back)), MenuTransition::Pop);
    assert_eq!(NewGameButtons::click(Some(NewGameButtons::CreateNewGame)), MenuTransition::CreateNewGame);
    assert_eq!(GameStartTransitionButtons::click(Some(GameStartTransitionButtons::Close)), MenuTransition::Pop);
    assert_eq!(NewGameButtons::click(None), MenuTransition::Stay);
}

#[test]
fn ingame_buttons() {
    assert_eq!(BaseStateButtons::click(Some(BaseStateButtons::Exit)), MenuTransition::Pop);
    assert_eq!(BaseStateButtons::click(Some(BaseStateButtons::Save)), MenuTransition::SaveGame);
    assert_eq!(BaseStateButtons::click(Some(BaseStateButtons::Inventory)), MenuTransition::Stay);
    assert_eq!(BaseStateButtons::click(Some(BaseStateButtons::Options)), MenuTransition::Stay);
    assert_eq!(BaseStateButtons::click(Some(BaseStateButtons::Mute)), MenuTransition::Stay);
}

#[test]
fn failed_assets_name_their_menus() {
    assert_eq!(menu_screen_of_asset(&"Prefabs/ui/MenuScreens/Options.ron".to_string()), Some(MenuScreens::Options));
    assert_eq!(menu_screen_of_asset(&"Prefabs/ui/MenuScreens/Load.ron".to_string()), Some(MenuScreens::LoadGame));
    assert_eq!(menu_screen_of_asset(&"Prefabs/ui/MenuScreens/Credits.ron".to_string()), Some(MenuScreens::Credits));
    assert_eq!(menu_screen_of_asset(&"Prefabs/ui/MenuScreens/NewGame.ron".to_string()), Some(MenuScreens::NewGame));
    assert_eq!(menu_screen_of_asset(&"Prefabs/ui/MenuScreens/Centre.ron".to_string()), None);
    assert!(is_main_menu_asset(&"Prefabs/ui/MenuScreens/Centre.ron".to_string()));
    assert!(!is_main_menu_asset(&"Prefabs/ui/MenuScreens/Load.ron".to_string()));
}

#[test]
fn game_info_defaults() {
    let info = GameInfo::default();
    assert_eq!(info.name, "Terra Incognita");
    assert_eq!(info.planet_dim, (16, 16));
    assert_eq!(info.chunk_dim, (16, 32));
    let mark = GameInfo::new("Mark", (128, 128), (32, 32));
    assert_eq!(mark.name, "Mark");
}

#[test]
fn decimal_strings() {
    assert_eq!(decimal_string(0), "0");
    assert_eq!(decimal_string(9), "9");
    assert_eq!(decimal_string(10), "10");
    assert_eq!(decimal_string(1024), "1024");
    assert_eq!(decimal_string(u64::MAX), u64::MAX.to_string());
}
