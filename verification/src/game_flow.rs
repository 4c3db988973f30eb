//! The states the game goes through, and the decisions that move it from
//! one to the next: the main menu's buttons, the steps of loading a level,
//! and what ends a level.

use vstd::prelude::*;
use vstd::string::StringExecFns;
use crate::save::Save;
use crate::tile::PlayerModification;
use crate::anim::CPUTileAnimations;

verus! {

/// The steps of loading a level, in order.
#[derive(Debug, Clone, Copy, PartialEq, Eq, Structural)]
pub enum LoadingLevel {
    LoadingBaseAssets,
    LoadingLevelTiles,
    InittingLevelResources,
    SpawningLevel,
    SpawningPlayer,
    Cleanup,
    Done,
}

/// The states of the game.
#[derive(Debug, Clone, Copy, PartialEq, Eq, Structural)]
pub enum GameState {
    /// Loads the assets of the splash screen and the main menu.
    Booting,
    /// Shows the logos related to the game.
    SplashScreen,
    MainMenu,
    /// Loads a level, step by step.
    LoadingLevel(LoadingLevel),
    /// The game.
    InGame,
}

/// The step of loading a level that follows `s`; none after the last.
pub open spec fn spec_next_loading(s: LoadingLevel) -> Option<LoadingLevel> {
    match s {
        LoadingLevel::LoadingBaseAssets => Some(LoadingLevel::LoadingLevelTiles),
        LoadingLevel::LoadingLevelTiles => Some(LoadingLevel::InittingLevelResources),
        LoadingLevel::InittingLevelResources => Some(LoadingLevel::SpawningLevel),
        LoadingLevel::SpawningLevel => Some(LoadingLevel::SpawningPlayer),
        LoadingLevel::SpawningPlayer => Some(LoadingLevel::Cleanup),
        LoadingLevel::Cleanup => Some(LoadingLevel::Done),
        LoadingLevel::Done => None,
    }
}

/// The step of loading a level that follows `s`.
pub fn next_loading_state(s: LoadingLevel) -> (r: Option<LoadingLevel>)
    ensures
        r == spec_next_loading(s),
{
    match s {
        LoadingLevel::LoadingBaseAssets => Some(LoadingLevel::LoadingLevelTiles),
        LoadingLevel::LoadingLevelTiles => Some(LoadingLevel::InittingLevelResources),
        LoadingLevel::InittingLevelResources => Some(LoadingLevel::SpawningLevel),
        LoadingLevel::SpawningLevel => Some(LoadingLevel::SpawningPlayer),
        LoadingLevel::SpawningPlayer => Some(LoadingLevel::Cleanup),
        LoadingLevel::Cleanup => Some(LoadingLevel::Done),
        LoadingLevel::Done => None,
    }
}

/// Whether the game goes on to play the level when loading reaches `s`:
/// the clean-up step starts the game.
pub fn starts_game(s: LoadingLevel) -> (r: bool)
    ensures
        r == (s == LoadingLevel::Cleanup),
{
    match s {
        LoadingLevel::Cleanup => true,
        _ => false,
    }
}

/// What entering the loading step `s` does to the animation registry:
/// loading a level starts from an empty registry, so entering
/// `LoadingBaseAssets` forgets every animation; the other steps leave it
/// as it is.
pub fn enter_loading_state(s: LoadingLevel, animations: &mut CPUTileAnimations)
    ensures
        s == LoadingLevel::LoadingBaseAssets ==> final(animations).animations@.len() == 0,
        s != LoadingLevel::LoadingBaseAssets ==> final(animations).animations@ == old(
            animations,
        ).animations@,
{
    match s {
        LoadingLevel::LoadingBaseAssets => animations.clear(),
        _ => {},
    }
}

/// The position of a step in the loading order.
pub open spec fn loading_rank(s: LoadingLevel) -> nat {
    match s {
        LoadingLevel::LoadingBaseAssets => 0,
        LoadingLevel::LoadingLevelTiles => 1,
        LoadingLevel::InittingLevelResources => 2,
        LoadingLevel::SpawningLevel => 3,
        LoadingLevel::SpawningPlayer => 4,
        LoadingLevel::Cleanup => 5,
        LoadingLevel::Done => 6,
    }
}

/// Loading a level goes forward one step at a time and ends: each step
/// leads to the one after it, and `Done` to none.
pub proof fn law_loading_moves_forward(s: LoadingLevel)
    ensures
        spec_next_loading(s) matches Some(n) ==> loading_rank(n) == loading_rank(s) + 1,
        spec_next_loading(s) is None <==> s == LoadingLevel::Done,
{
}

/// The decimal digits of a number.
pub open spec fn decimal(n: nat) -> Seq<char>
    decreases n,
{
    if n < 10 {
        seq![digit_char(n)]
    } else {
        decimal(n / 10).push(digit_char(n % 10))
    }
}

/// The character of a decimal digit.
pub open spec fn digit_char(d: nat) -> char {
    if d == 0 {
        '0'
    } else if d == 1 {
        '1'
    } else if d == 2 {
        '2'
    } else if d == 3 {
        '3'
    } else if d == 4 {
        '4'
    } else if d == 5 {
        '5'
    } else if d == 6 {
        '6'
    } else if d == 7 {
        '7'
    } else if d == 8 {
        '8'
    } else {
        '9'
    }
}

/// The text of one decimal digit.
fn digit_str(d: u8) -> (r: &'static str)
    requires
        d < 10,
    ensures
        r@ == seq![digit_char(d as nat)],
{
    proof {
        reveal_strlit("0");
        reveal_strlit("1");
        reveal_strlit("2");
        reveal_strlit("3");
        reveal_strlit("4");
        reveal_strlit("5");
        reveal_strlit("6");
        reveal_strlit("7");
        reveal_strlit("8");
        reveal_strlit("9");
    }
    if d == 0 {
        "0"
    } else if d == 1 {
        "1"
    } else if d == 2 {
        "2"
    } else if d == 3 {
        "3"
    } else if d == 4 {
        "4"
    } else if d == 5 {
        "5"
    } else if d == 6 {
        "6"
    } else if d == 7 {
        "7"
    } else if d == 8 {
        "8"
    } else {
        "9"
    }
}

/// Appends the decimal digits of `n`.
fn append_decimal(s: &mut String, n: u8)
    ensures
        final(s)@ == old(s)@ + decimal(n as nat),
{
    if n >= 100 {
        s.append(digit_str(n / 100));
        s.append(digit_str((n / 10) % 10));
        s.append(digit_str(n % 10));
        proof {
            let h = (n / 100) as nat;
            let t = ((n / 10) % 10) as nat;
            let o = (n % 10) as nat;
            assert(n as nat / 10 >= 10);
            assert((n as nat / 10) / 10 == h);
            assert((n as nat / 10) % 10 == t);
            assert(decimal(h) == seq![digit_char(h)]);
            assert(decimal(n as nat / 10) == seq![digit_char(h)].push(digit_char(t)));
            assert(decimal(n as nat) == seq![digit_char(h)].push(digit_char(t)).push(digit_char(o)));
            assert(old(s)@ + seq![digit_char(h)] + seq![digit_char(t)] + seq![digit_char(o)] =~= old(
                s,
            )@ + decimal(n as nat));
        }
    } else if n >= 10 {
        s.append(digit_str(n / 10));
        s.append(digit_str(n % 10));
        proof {
            let t = (n / 10) as nat;
            let o = (n % 10) as nat;
            assert(decimal(t) == seq![digit_char(t)]);
            assert(decimal(n as nat) == seq![digit_char(t)].push(digit_char(o)));
            assert(old(s)@ + seq![digit_char(t)] + seq![digit_char(o)] =~= old(s)@ + decimal(
                n as nat,
            ));
        }
    } else {
        s.append(digit_str(n));
    }
}

/// The path of the map of level `level` of world `world`.
pub open spec fn spec_level_path(world: u8, level: u8) -> Seq<char> {
    "maps/level"@ + decimal(world as nat) + "-"@ + decimal(level as nat) + ".tmx"@
}

/// The path of the map of level `level` of world `world`:
/// `maps/level{world}-{level}.tmx`.
pub fn level_path(world: u8, level: u8) -> (r: String)
    ensures
        r@ == spec_level_path(world, level),
{
    let mut s = String::new();
    s.append("maps/level");
    append_decimal(&mut s, world);
    s.append("-");
    append_decimal(&mut s, level);
    s.append(".tmx");
    s
}

/// The buttons of the main menu.
#[derive(Debug, Clone, Copy, PartialEq, Eq, Structural)]
pub enum MainMenuButton {
    PickLevel,
    Achievements,
    Settings,
    Quit,
}

/// The title of the main menu.
pub fn main_menu_title() -> (r: &'static str)
    ensures
        r@ == "Main menu"@,
{
    "Main menu"
}

/// The buttons of the main menu, top to bottom, with their captions.
pub fn main_menu_buttons() -> (r: Vec<(&'static str, MainMenuButton)>)
    ensures
        r@.len() == 4,
        r@[0].0@ == "Choose level"@ && r@[0].1 == MainMenuButton::PickLevel,
        r@[1].0@ == "Achievements"@ && r@[1].1 == MainMenuButton::Achievements,
        r@[2].0@ == "Settings"@ && r@[2].1 == MainMenuButton::Settings,
        r@[3].0@ == "Quit"@ && r@[3].1 == MainMenuButton::Quit,
{
    let mut v: Vec<(&'static str, MainMenuButton)> = Vec::new();
    v.push(("Choose level", MainMenuButton::PickLevel));
    v.push(("Achievements", MainMenuButton::Achievements));
    v.push(("Settings", MainMenuButton::Settings));
    v.push(("Quit", MainMenuButton::Quit));
    v
}

/// What clicking in the main menu does: the buttons are visited in order
/// while they are clicked (the first one that is not stops the visit);
/// "Choose level", where there is a save, loads the level the save is at.
/// Returns the path of that level's map, where one is to be loaded.
pub fn main_menu_tick(buttons: &Vec<(bool, MainMenuButton)>, save: Option<&Save>) -> (r: Option<
    String,
>)
    ensures
        r matches Some(p) ==> save matches Some(sv) && p@ == spec_level_path(
            sv.spec_world(),
            sv.spec_level(),
        ),
        r is Some <==> save is Some && exists|i: int|
            0 <= i < buttons@.len() && buttons@[i].1 == MainMenuButton::PickLevel && forall|j: int|
                0 <= j <= i ==> #[trigger] buttons@[j].0,
{
    let mut result: Option<String> = None;
    let mut i: usize = 0;
    while i < buttons.len()
        invariant
            i <= buttons@.len(),
            forall|j: int| 0 <= j < i ==> #[trigger] buttons@[j].0,
            result matches Some(p) ==> save matches Some(sv) && p@ == spec_level_path(
                sv.spec_world(),
                sv.spec_level(),
            ),
            result is Some <==> save is Some && exists|k: int|
                0 <= k < i && buttons@[k].1 == MainMenuButton::PickLevel,
        decreases buttons@.len() - i,
    {
        let (clicked, button) = buttons[i];
        if !clicked {
            proof {
                assert forall|k: int|
                    0 <= k < buttons@.len() && buttons@[k].1 == MainMenuButton::PickLevel && (forall|
                        j: int,
                    | 0 <= j <= k ==> #[trigger] buttons@[j].0) implies k < i by {
                    if k >= i {
                        assert(buttons@[i as int].0);
                    }
                }
            }
            return result;
        }
        match button {
            MainMenuButton::PickLevel => {
                if let Some(sv) = save {
                    let (world, level) = sv.world_level();
                    result = Some(level_path(world, level));
                }
            },
            _ => {},
        }
        proof {
            if save is Some && buttons@[i as int].1 == MainMenuButton::PickLevel {
                assert(0 <= i < i + 1);
            }
        }
        i = i + 1;
    }
    proof {
        assert forall|k: int|
            0 <= k < buttons@.len() && buttons@[k].1 == MainMenuButton::PickLevel implies forall|
            j: int,
        | 0 <= j <= k ==> #[trigger] buttons@[j].0 by {}
    }
    result
}

/// What happens in the game when the player is told to do something.
#[derive(Debug, Clone, Copy, PartialEq, Eq, Structural)]
pub enum IngameAction {
    Nothing,
    /// The player died: back to the main menu.
    BackToMenu,
    /// The player escaped: the level is beaten, and after a countdown the
    /// game goes back to the main menu.
    CompleteLevel,
}

/// What the game does when the player is told to do `m`.
pub fn ingame_reaction(m: PlayerModification) -> (r: IngameAction)
    ensures
        r == match m {
            PlayerModification::Kill => IngameAction::BackToMenu,
            PlayerModification::Escape => IngameAction::CompleteLevel,
            _ => IngameAction::Nothing,
        },
{
    match m {
        PlayerModification::Kill => IngameAction::BackToMenu,
        PlayerModification::Escape => IngameAction::CompleteLevel,
        _ => IngameAction::Nothing,
    }
}

} // verus!
