use gluttony::game_flow::{
    ingame_reaction, level_path, main_menu_buttons, main_menu_tick, main_menu_title,
    next_loading_state, starts_game, IngameAction, LoadingLevel, MainMenuButton,
};
use gluttony::level_info::{LevelInfo, LevelInfoLoader};
use gluttony::save::Save;
use gluttony::tile::PlayerModification;

#[test]
fn new_save_starts_at_the_beginning() {
    let save = Save::new();
    assert_eq!(save.world_level(), (0, 0));
    assert!(!save.has_achievement("first"));
    assert!(save.achievement_names().is_empty());
}

#[test]
fn achievements_are_recorded_once() {
    let mut save = Save::new();
    save.give_achievement("first");
    assert!(save.has_achievement("first"));
    assert!(!save.has_achievement("second"));
    save.give_achievement("first");
    save.give_achievement("second");
    assert_eq!(save.achievement_names().len(), 2);
    let restored = Save::from_parts(
        vec!["a".to_string(), "b".to_string(), "a".to_string()],
        1,
        2,
    );
    assert_eq!(restored.achievement_names().len(), 2);
    assert!(restored.has_achievement("b"));
    assert_eq!(restored.world_level(), (1, 2));
}

#[test]
fn next_level_goes_through_worlds() {
    let info = LevelInfo::new(vec![2, 1]);
    assert_eq!(info.world_count(), 2);
    assert_eq!(info.level_count_in_world(1), 1);
    let mut save = Save::new();
    assert_eq!(save.next_level(&info), Some((0, 1)));
    save.register_level_complete(&info);
    assert_eq!(save.world_level(), (0, 1));
    // The last level of world 0 leads to world 1.
    assert_eq!(save.next_level(&info), Some((1, 0)));
    save.register_level_complete(&info);
    assert_eq!(save.world_level(), (1, 0));
    // The last level of the last world has no next level: the save stays.
    assert_eq!(save.next_level(&info), None);
    save.register_level_complete(&info);
    assert_eq!(save.world_level(), (1, 0));
    // Past the last world there is no next level either.
    let beyond = Save::from_parts(vec![], 5, 0);
    assert_eq!(beyond.next_level(&info), None);
}

#[test]
fn world_count_is_truncated() {
    let info = LevelInfo::new(vec![1; 256]);
    assert_eq!(info.world_count(), 0);
    let info = LevelInfo::new(vec![1; 257]);
    assert_eq!(info.world_count(), 1);
    assert_eq!(LevelInfoLoader.extensions(), vec!["level-info"]);
}

#[test]
fn level_paths() {
    assert_eq!(level_path(0, 0), "maps/level0-0.tmx");
    assert_eq!(level_path(1, 12), "maps/level1-12.tmx");
    assert_eq!(level_path(255, 100), "maps/level255-100.tmx");
}

#[test]
fn loading_steps_in_order() {
    let mut s = LoadingLevel::LoadingBaseAssets;
    let mut steps = vec![s];
    while let Some(n) = next_loading_state(s) {
        steps.push(n);
        s = n;
    }
    assert_eq!(steps, vec![
        LoadingLevel::LoadingBaseAssets,
        LoadingLevel::LoadingLevelTiles,
        LoadingLevel::InittingLevelResources,
        LoadingLevel::SpawningLevel,
        LoadingLevel::SpawningPlayer,
        LoadingLevel::Cleanup,
        LoadingLevel::Done,
    ]);
    assert!(starts_game(LoadingLevel::Cleanup));
    assert!(!starts_game(LoadingLevel::Done));
}

#[test]
fn main_menu() {
    assert_eq!(main_menu_title(), "Main menu");
    let buttons = main_menu_buttons();
    assert_eq!(buttons[0], ("Choose level", MainMenuButton::PickLevel));
    assert_eq!(buttons[3], ("Quit", MainMenuButton::Quit));
    let save = Save::from_parts(vec![], 2, 3);
    let clicked = vec![(true, MainMenuButton::Settings), (true, MainMenuButton::PickLevel)];
    assert_eq!(main_menu_tick(&clicked, Some(&save)), Some("maps/level2-3.tmx".to_string()));
    assert_eq!(main_menu_tick(&clicked, None), None);
    // The visit stops at the first button not clicked.
    let stopped = vec![(false, MainMenuButton::Settings), (true, MainMenuButton::PickLevel)];
    assert_eq!(main_menu_tick(&stopped, Some(&save)), None);
}

#[test]
fn ingame_reactions() {
    assert_eq!(ingame_reaction(PlayerModification::Kill), IngameAction::BackToMenu);
    assert_eq!(ingame_reaction(PlayerModification::Escape), IngameAction::CompleteLevel);
    assert_eq!(ingame_reaction(PlayerModification::AcknowledgeMove), IngameAction::Nothing);
}

#[test]
fn save_parts_round_trip() {
    let mut save = Save::new();
    save.give_achievement("gold");
    save.give_achievement("silver");
    let (w, l) = save.world_level();
    let back = Save::from_parts(save.achievement_names().clone(), w, l);
    assert_eq!(back.world_level(), save.world_level());
    assert!(back.has_achievement("gold") && back.has_achievement("silver"));
    assert_eq!(back.achievement_names().len(), 2);
}

#[test]
fn loading_a_level_starts_from_an_empty_animation_registry() {
    let mut anims = gluttony::anim::CPUTileAnimations::new();
    anims.add_animation(gluttony::anim::CPUTileAnimation::new(vec![]));
    gluttony::game_flow::enter_loading_state(gluttony::game_flow::LoadingLevel::SpawningLevel, &mut anims);
    assert_eq!(anims.animations.len(), 1);
    gluttony::game_flow::enter_loading_state(gluttony::game_flow::LoadingLevel::LoadingBaseAssets, &mut anims);
    assert_eq!(anims.animations.len(), 0);
}
