use gluttony::anim::{
    update_animation_frame, CPUAnimated, CPUTileAnimation, CPUTileAnimations, Frame,
    TilesetIndexing, NO_ANIMATION,
};
use gluttony::tile::{
    tile_animating_switch, tile_state_switching, tile_transition_animating, ActivatableAnimating,
    ActivatableTileTag, Active, ActivationCondition, react, PlayerModification, TileRole,
};
use gluttony::dice::Direction;
use gluttony::tilemap::AnimFrame;

fn frames(durations: &[u128]) -> CPUTileAnimation {
    CPUTileAnimation::new(
        durations.iter().enumerate().map(|(i, d)| Frame { texture_id: 10 + i as u32, duration: *d }).collect(),
    )
}

#[test]
fn playback_moves_through_frames() {
    let anim = frames(&[100, 200, 300]);
    let mut a = CPUAnimated::new(0, true, false);
    // Still in the first frame: the frame stayed the same.
    assert!(a.update(100, &anim));
    assert!(!a.is_done());
    // 150 ns past the first frame's end: in the second frame.
    assert!(!a.update(150, &anim));
    // 100 + 150 - 100 = 150 spent in frame 1 (lasting 200); 400 more wraps around.
    assert!(!a.update(400, &anim));
    assert_eq!(a.animation(), 0);
}

#[test]
fn non_looping_playback_runs_out() {
    let anim = frames(&[100, 100]);
    let mut a = CPUAnimated::new(3, false, false);
    assert!(!a.update(1000, &anim));
    assert!(a.is_done());
    // Done playback stays on its last frame.
    assert!(a.update(0, &anim));
    assert!(!a.is_done());
}

#[test]
fn paused_playback_does_not_move() {
    let anim = frames(&[1, 1]);
    let mut a = CPUAnimated::new(0, true, true);
    assert!(!a.update(1000, &anim));
    a.set_paused(false);
    // Two frames of 1 ns each: 3 ns go round to the first frame again.
    assert!(a.update(3, &anim));
}

#[test]
fn default_playback_shows_nothing() {
    let mut anims = CPUTileAnimations::new();
    let mut a = CPUAnimated::default();
    assert_eq!(a.animation(), NO_ANIMATION);
    assert_eq!(update_animation_frame(&mut a, 5, &anims), None);
    assert_eq!(anims.add_animation(frames(&[100, 100])), 0);
    let mut b = CPUAnimated::new(0, true, false);
    assert_eq!(update_animation_frame(&mut b, 50, &anims), None);
    assert_eq!(update_animation_frame(&mut b, 100, &anims), Some(11));
    assert_eq!(update_animation_frame(&mut b, 60, &anims), Some(10));
    b.set_paused(true);
    assert_eq!(update_animation_frame(&mut b, 500, &anims), None);
    anims.clear();
    assert_eq!(anims.animations.len(), 0);
}

#[test]
fn indexing_of_tile_ids() {
    let ix = TilesetIndexing::from_tile_ids(&vec![7, 3, 9]);
    assert_eq!(ix.dispatch(7), 0);
    assert_eq!(ix.dispatch(3), 1);
    assert_eq!(ix.dispatch(9), 2);
    assert_eq!(TilesetIndexing::Continious.dispatch(42), 42);
    let anim = ix.cpu_tile_anim(&vec![
        AnimFrame { tile_id: 9, duration: 5 },
        AnimFrame { tile_id: 3, duration: 1 },
    ]);
    assert_eq!(anim.0, vec![
        Frame { texture_id: 2, duration: 5_000_000 },
        Frame { texture_id: 1, duration: 1_000_000 },
    ]);
}

#[test]
fn activation_follows_the_die() {
    assert!(ActivationCondition::Odd.is_active(3));
    assert!(!ActivationCondition::Odd.is_active(4));
    assert!(ActivationCondition::Even.is_active(6));
    assert!(ActivationCondition::Even.active_on_start());
    assert!(!ActivationCondition::Odd.active_on_start());
    let mut active = Active { is_active: true };
    assert!(tile_state_switching(&mut active, ActivationCondition::Odd, 2));
    assert!(!active.is_active);
    assert!(!tile_state_switching(&mut active, ActivationCondition::Odd, 4));
    let mut tag = ActivatableTileTag::new(ActivationCondition::Even, ActivatableAnimating::Pause { anim: 1 });
    assert!(tag.is_active());
    assert!(!tag.will_be_active(5));
    assert!(tag.update(5));
    assert!(!tag.is_active());
    assert!(!tag.update(1));
}

#[test]
fn switching_animations() {
    let switch = ActivatableAnimating::Switch { on_transition: 1, off_transition: 2, on_anim: 3, off_anim: 4 };
    // The die is about to show 5: an active Even tile turns off.
    assert_eq!(tile_transition_animating(5, ActivationCondition::Even, Active { is_active: true }, switch), Some(2));
    assert_eq!(tile_transition_animating(5, ActivationCondition::Odd, Active { is_active: false }, switch), Some(1));
    // Nothing for a tile that keeps its state, or that pauses.
    assert_eq!(tile_transition_animating(6, ActivationCondition::Even, Active { is_active: true }, switch), None);
    assert_eq!(
        tile_transition_animating(5, ActivationCondition::Even, Active { is_active: true }, ActivatableAnimating::Pause { anim: 0 }),
        None
    );
    let mut c = CPUAnimated::new(3, true, false);
    tile_animating_switch(Active { is_active: false }, &mut c, switch);
    assert_eq!(c.animation(), 4);
}

#[test]
fn tile_reactions() {
    assert_eq!(react(TileRole::Conveyor, true), PlayerModification::Slide(Direction::Up));
    assert_eq!(react(TileRole::Conveyor, false), PlayerModification::AcknowledgeMove);
    assert_eq!(react(TileRole::Frier, true), PlayerModification::Kill);
    assert_eq!(react(TileRole::End, false), PlayerModification::Escape);
    assert_eq!(react(TileRole::Solid, true), PlayerModification::AcknowledgeMove);
}

#[test]
fn paused_playback_ignores_its_frame() {
    let anim = frames(&[100]);
    let mut a = CPUAnimated::new(3, true, true);
    assert!(!a.update(1000, &anim));
    assert_eq!(a.animation(), 3);
}
