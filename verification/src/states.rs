//! The decisions of the menu and in-game states: what a window event or a button click
//! leads to, and the screens and spritesheets they deal with.
use vstd::prelude::*;

verus! {

/// The screens reachable in the game.
#[derive(PartialEq, Eq, Structural, Copy, Clone, Debug, Hash, PartialOrd, Ord)]
pub enum IngameScreens {
    HUD,
    Inventory,
    OreShop,
    PartsShop,
    FuelStation,
    Death,
    Exit,
    Options,
}

/// All menus of the main menu.
#[derive(PartialEq, Eq, Structural, Copy, Clone, Debug, Hash, PartialOrd, Ord)]
pub enum MenuScreens {
    NewGame,
    LoadGame,
    Options,
    Credits,
    Centre,
}

/// What a state asks of the state machine after an event.
#[derive(PartialEq, Eq, Structural, Copy, Clone, Debug)]
pub enum MenuTransition {
    /// Stay in the current state.
    Stay,
    /// Close the application.
    Quit,
    /// Return to the previous state.
    Pop,
    /// Open a menu on top of the current state.
    Push(MenuScreens),
    /// Create a new game and switch to it.
    CreateNewGame,
    /// Load the savegame and switch to it.
    LoadSavegame,
    /// Save the running game and stay.
    SaveGame,
}

/// What a window event leads to in every state: closing the window or pressing escape
/// quits, anything else is ignored.
pub fn window_transition(close_requested: bool, escape_down: bool) -> (r: MenuTransition)
    ensures
        r == if close_requested || escape_down { MenuTransition::Quit } else { MenuTransition::Stay },
{
    if close_requested || escape_down {
        MenuTransition::Quit
    } else {
        MenuTransition::Stay
    }
}

/// The buttons of the main menu.
#[derive(PartialEq, Eq, Structural, Copy, Clone, Debug, Hash, PartialOrd, Ord)]
pub enum CentreButtons {
    NewGame,
    Load,
    Options,
    Credits,
    Exit,
}

impl CentreButtons {
    /// What a click on a widget of the main menu leads to; `None` for a widget that is no
    /// button of the menu.
    pub fn click(button: Option<CentreButtons>) -> (r: MenuTransition)
        ensures
            r == match button {
                None => MenuTransition::Stay,
                Some(CentreButtons::NewGame) => MenuTransition::Push(MenuScreens::NewGame),
                Some(CentreButtons::Load) => MenuTransition::Push(MenuScreens::LoadGame),
                Some(CentreButtons::Options) => MenuTransition::Push(MenuScreens::Options),
                Some(CentreButtons::Credits) => MenuTransition::Push(MenuScreens::Credits),
                Some(CentreButtons::Exit) => MenuTransition::Quit,
            },
    {
        match button {
            None => MenuTransition::Stay,
            Some(b) => match b {
                CentreButtons::NewGame => MenuTransition::Push(MenuScreens::NewGame),
                CentreButtons::Load => MenuTransition::Push(MenuScreens::LoadGame),
                CentreButtons::Options => MenuTransition::Push(MenuScreens::Options),
                CentreButtons::Credits => MenuTransition::Push(MenuScreens::Credits),
                CentreButtons::Exit => MenuTransition::Quit,
            },
        }
    }
}

/// The buttons of the credits menu.
#[derive(PartialEq, Eq, Structural, Copy, Clone, Debug, Hash, PartialOrd, Ord)]
pub enum CreditsButtons {
    Back,
}

impl CreditsButtons {
    /// What a click on a widget of the credits menu leads to.
    pub fn click(button: Option<CreditsButtons>) -> (r: MenuTransition)
        ensures
            r == match button {
                None => MenuTransition::Stay,
                Some(CreditsButtons::Back) => MenuTransition::Pop,
            },
    {
        match button {
            None => MenuTransition::Stay,
            Some(CreditsButtons::Back) => MenuTransition::Pop,
        }
    }
}

/// The buttons of the load menu.
#[derive(PartialEq, Eq, Structural, Copy, Clone, Debug, Hash, PartialOrd, Ord)]
pub enum LoadMenuButtons {
    Back,
    Load,
}

impl LoadMenuButtons {
    /// What a click on a widget of the load menu leads to.
    pub fn click(button: Option<LoadMenuButtons>) -> (r: MenuTransition)
        ensures
            r == match button {
                None => MenuTransition::Stay,
                Some(LoadMenuButtons::Back) => MenuTransition::Pop,
                Some(LoadMenuButtons::Load) => MenuTransition::LoadSavegame,
            },
    {
        match button {
            None => MenuTransition::Stay,
            Some(b) => match b {
                LoadMenuButtons::Back => MenuTransition::Pop,
                LoadMenuButtons::Load => MenuTransition::LoadSavegame,
            },
        }
    }
}

/// The buttons of the new-game menu.
#[derive(PartialEq, Eq, Structural, Copy, Clone, Debug, Hash, PartialOrd, Ord)]
pub enum NewGameButtons {
    Back,
    CreateNewGame,
}

impl NewGameButtons {
    /// What a click on a widget of the new-game menu leads to.
    pub fn click(button: Option<NewGameButtons>) -> (r: MenuTransition)
        ensures
            r == match button {
                None => MenuTransition::Stay,
                Some(NewGameButtons::Back) => MenuTransition::Pop,
                Some(NewGameButtons::CreateNewGame) => MenuTransition::CreateNewGame,
            },
    {
        match button {
            None => MenuTransition::Stay,
            Some(b) => match b {
                NewGameButtons::Back => MenuTransition::Pop,
                NewGameButtons::CreateNewGame => MenuTransition::CreateNewGame,
            },
        }
    }
}

/// The buttons of the in-game base screen.
#[derive(PartialEq, Eq, Structural, Copy, Clone, Debug, Hash, PartialOrd, Ord)]
pub enum BaseStateButtons {
    Inventory,
    Options,
    Exit,
    Save,
    Mute,
}

impl BaseStateButtons {
    /// What a click on a widget of the in-game base screen leads to: exit returns to the
    /// main menu, save saves the game; inventory, options and mute do nothing yet.
    pub fn click(button: Option<BaseStateButtons>) -> (r: MenuTransition)
        ensures
            r == match button {
                Some(BaseStateButtons::Exit) => MenuTransition::Pop,
                Some(BaseStateButtons::Save) => MenuTransition::SaveGame,
                _ => MenuTransition::Stay,
            },
    {
        match button {
            None => MenuTransition::Stay,
            Some(b) => match b {
                BaseStateButtons::Inventory => MenuTransition::Stay,
                BaseStateButtons::Options => MenuTransition::Stay,
                BaseStateButtons::Exit => MenuTransition::Pop,
                BaseStateButtons::Save => MenuTransition::SaveGame,
                BaseStateButtons::Mute => MenuTransition::Stay,
            },
        }
    }
}

/// The buttons of the game-start transition screen.
#[derive(PartialEq, Eq, Structural, Copy, Clone, Debug, Hash, PartialOrd, Ord)]
pub enum GameStartTransitionButtons {
    Close,
}

impl GameStartTransitionButtons {
    /// What a click on a widget of the game-start transition screen leads to.
    pub fn click(button: Option<GameStartTransitionButtons>) -> (r: MenuTransition)
        ensures
            r == match button {
                None => MenuTransition::Stay,
                Some(GameStartTransitionButtons::Close) => MenuTransition::Pop,
            },
    {
        match button {
            None => MenuTransition::Stay,
            Some(GameStartTransitionButtons::Close) => MenuTransition::Pop,
        }
    }
}

/// The menu whose screen is loaded from the asset `asset_name`, among the menus that the
/// main menu opens; `None` for any other asset.
pub fn menu_screen_of_asset(asset_name: &String) -> (r: Option<MenuScreens>)
    ensures
        asset_name@ == "Prefabs/ui/MenuScreens/Options.ron"@ ==> r == Some(MenuScreens::Options),
        asset_name@ == "Prefabs/ui/MenuScreens/Load.ron"@ ==> r == Some(MenuScreens::LoadGame),
        asset_name@ == "Prefabs/ui/MenuScreens/Credits.ron"@ ==> r == Some(MenuScreens::Credits),
        asset_name@ == "Prefabs/ui/MenuScreens/NewGame.ron"@ ==> r == Some(MenuScreens::NewGame),
        asset_name@ != "Prefabs/ui/MenuScreens/Options.ron"@
            && asset_name@ != "Prefabs/ui/MenuScreens/Load.ron"@
            && asset_name@ != "Prefabs/ui/MenuScreens/Credits.ron"@
            && asset_name@ != "Prefabs/ui/MenuScreens/NewGame.ron"@ ==> r is None,
{
    proof {
        reveal_strlit("Prefabs/ui/MenuScreens/Options.ron");
        reveal_strlit("Prefabs/ui/MenuScreens/Load.ron");
        reveal_strlit("Prefabs/ui/MenuScreens/Credits.ron");
        reveal_strlit("Prefabs/ui/MenuScreens/NewGame.ron");
        assert("Prefabs/ui/MenuScreens/Options.ron"@[23] == 'O');
        assert("Prefabs/ui/MenuScreens/Load.ron"@[23] == 'L');
        assert("Prefabs/ui/MenuScreens/Credits.ron"@[23] == 'C');
        assert("Prefabs/ui/MenuScreens/NewGame.ron"@[23] == 'N');
    }
    if *asset_name == String::from_str("Prefabs/ui/MenuScreens/Options.ron") {
        Some(MenuScreens::Options)
    } else if *asset_name == String::from_str("Prefabs/ui/MenuScreens/Load.ron") {
        Some(MenuScreens::LoadGame)
    } else if *asset_name == String::from_str("Prefabs/ui/MenuScreens/Credits.ron") {
        Some(MenuScreens::Credits)
    } else if *asset_name == String::from_str("Prefabs/ui/MenuScreens/NewGame.ron") {
        Some(MenuScreens::NewGame)
    } else {
        None
    }
}

/// Whether a failed asset is the main menu's screen, without which the game cannot go on
/// past its startup screens.
pub fn is_main_menu_asset(asset_name: &String) -> (r: bool)
    ensures
        r == (asset_name@ == "Prefabs/ui/MenuScreens/Centre.ron"@),
{
    *asset_name == String::from_str("Prefabs/ui/MenuScreens/Centre.ron")
}

/// How loading the assets of a state is going.
#[derive(PartialEq, Eq, Structural, Copy, Clone, Debug)]
pub enum AssetProgress {
    Loading,
    Complete,
    Failed,
}

/// What the startup state does on an update.
#[derive(PartialEq, Eq, Structural, Copy, Clone, Debug)]
pub enum StartupStep {
    /// Nothing to do yet.
    Wait,
    /// Some assets failed, but not the main menu: set the screen timer to its failure
    /// value and keep waiting.
    AssetsFailed,
    /// The main menu's screen failed to load: close the application.
    Quit,
    /// All assets are loaded: mark them so and start timing the screens.
    AssetsLoaded,
    /// The current screen was shown long enough: show the next startup screen.
    NextScreen,
    /// The last startup screen was shown long enough: switch to the main menu.
    MainMenu,
}

/// The decision of the startup state on an update. Before its screens are loaded it waits
/// for the assets, quitting if the main menu's screen failed; afterwards it shows each
/// startup screen until its display time has elapsed, then switches to the main menu.
pub fn startup_step(
    screens_loaded: bool,
    progress: AssetProgress,
    main_menu_failed: bool,
    display_elapsed: bool,
    screens_left: usize,
) -> (r: StartupStep)
    ensures
        r == if !screens_loaded {
            match progress {
                AssetProgress::Failed => if main_menu_failed { StartupStep::Quit } else { StartupStep::AssetsFailed },
                AssetProgress::Complete => StartupStep::AssetsLoaded,
                AssetProgress::Loading => StartupStep::Wait,
            }
        } else if display_elapsed {
            if screens_left > 0 { StartupStep::NextScreen } else { StartupStep::MainMenu }
        } else {
            StartupStep::Wait
        },
{
    if !screens_loaded {
        match progress {
            AssetProgress::Failed => {
                if main_menu_failed {
                    StartupStep::Quit
                } else {
                    StartupStep::AssetsFailed
                }
            },
            AssetProgress::Complete => StartupStep::AssetsLoaded,
            AssetProgress::Loading => StartupStep::Wait,
        }
    } else if display_elapsed {
        if screens_left > 0 {
            StartupStep::NextScreen
        } else {
            StartupStep::MainMenu
        }
    } else {
        StartupStep::Wait
    }
}

/// The settings of a game about to be created: its name and the dimensions of its planet
/// in chunks and of its chunks in tiles.
pub struct GameInfo {
    pub name: &'static str,
    pub planet_dim: (u64, u64),
    pub chunk_dim: (u64, u64),
}

impl GameInfo {
    pub fn new(name: &'static str, planet_dim: (u64, u64), chunk_dim: (u64, u64)) -> (r: Self)
        ensures
            r.name == name,
            r.planet_dim == planet_dim,
            r.chunk_dim == chunk_dim,
    {
        GameInfo { name, planet_dim, chunk_dim }
    }
}

impl Default for GameInfo {
    /// "Terra Incognita", on a planet of 16 x 16 chunks of 16 x 32 tiles.
    fn default() -> (r: Self)
        ensures
            r.name@ == "Terra Incognita"@,
            r.planet_dim == (16u64, 16u64),
            r.chunk_dim == (16u64, 32u64),
    {
        GameInfo { name: "Terra Incognita", planet_dim: (16, 16), chunk_dim: (16, 32) }
    }
}

} // verus!
