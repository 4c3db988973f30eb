use gluttony::dice::{DiceEncoding, Direction};
use gluttony::level::TileTag;
use gluttony::moveable::{moveable_tick, update_moveable, MoveTy, Moveable, MoveableState};
use gluttony::player::{player_controls, tile_interaction, InteractionAction, Player};
use gluttony::rotation::MoveDirection;
use gluttony::special_tiles::{
    conveyor_condition_logic, conveyor_logic, end_tile_logic, fry_condition_logic, fry_logic,
    solid_tile_logic, ConveyorTag, FrierTag, MoveDecision,
};
use gluttony::tile::ActivationCondition;
use gluttony::tilemap::TileFlip;

#[test]
fn moveables_start_moving_only_when_idle() {
    let mut m = Moveable::new((2, 3));
    assert_eq!(m.pos(), (2, 3));
    assert_eq!(m.upper_side(), 4);
    assert!(!m.just_started_moving());
    assert_eq!(m.going_to_occupy(), None);
    assert!(m.flip(MoveDirection::Right, 100));
    assert!(m.just_started_moving());
    assert!(!m.slide(MoveDirection::Up, 100));
    assert_eq!(m.going_to_occupy(), Some((3, 3)));
    assert!(m.next_side().is_some());
    m.force_idle();
    assert_eq!(m.state, MoveableState::Idle);
    assert!(m.slide(MoveDirection::Up, 100));
    assert_eq!(m.next_side(), None);
}

#[test]
fn moves_end_when_the_timer_finishes() {
    let mut m = Moveable::new((2, 3));
    m.flip(MoveDirection::Up, 100);
    let side = m.next_side().unwrap();
    assert!(!update_moveable(&mut m, 60));
    assert_eq!(m.pos(), (2, 3));
    match m.state {
        MoveableState::Moving { timer, .. } => {
            assert_eq!((timer.elapsed, timer.finished), (60, false));
        },
        other => panic!("unexpected {:?}", other),
    }
    // The timer finishes in this frame; the move ends in the next one.
    assert!(!update_moveable(&mut m, 60));
    match m.state {
        MoveableState::Moving { timer, .. } => {
            assert_eq!((timer.elapsed, timer.finished), (100, true));
        },
        other => panic!("unexpected {:?}", other),
    }
    assert!(update_moveable(&mut m, 0));
    assert_eq!(m.pos(), (2, 4));
    assert_eq!(m.upper_side(), side);
    assert_eq!(m.state, MoveableState::Idle);
    assert!(!update_moveable(&mut m, 10));
    let mut s = Moveable::new((0, 0));
    s.slide(MoveDirection::Left, 0);
    assert!(!update_moveable(&mut s, 0));
    // Sliding off the grid keeps the position.
    assert!(update_moveable(&mut s, 0));
    assert_eq!(s.pos(), (0, 0));
    assert_eq!(s.upper_side(), 4);
    assert_eq!(MoveTy::Flip, MoveTy::Flip);
}

#[test]
fn moves_towards_no_tile_are_cancelled() {
    let mut m = Moveable::new((1, 1));
    m.flip(MoveDirection::Down, 10);
    assert_eq!(moveable_tick(&mut m, false, 20), None);
    assert_eq!(m.pos(), (1, 1));
    assert_eq!(m.state, MoveableState::Idle);
    m.flip(MoveDirection::Down, 10);
    assert_eq!(moveable_tick(&mut m, true, 20), None);
    assert_eq!(moveable_tick(&mut m, true, 0), Some((1, 0)));
}

#[test]
fn player_controls_and_cells() {
    assert_eq!(player_controls(false, false, false, false), None);
    assert_eq!(player_controls(true, false, false, false), Some(MoveDirection::Up));
    assert_eq!(player_controls(true, true, false, false), Some(MoveDirection::Left));
    assert_eq!(player_controls(true, true, true, true), Some(MoveDirection::Right));
    let mut p = Player::new((0, 5), 1, 2);
    assert_eq!(p.map_id(), 1);
    assert_eq!(p.layer_id(), 2);
    assert_eq!(p.upper_side(), 4);
    assert_eq!(p.next_cell((1, -1)), (1, 4));
    assert_eq!(p.next_cell((-1, 0)), (u32::MAX, 5));
    let after = p.apply_rotation(Direction::Up);
    assert_eq!(after.upper_side(), p.upper_side());
    p.apply_rotation(Direction::Down);
    assert_eq!(p.upper_side(), 4);
}

#[test]
fn special_tiles_act_on_arrivals() {
    let flat = TileFlip { x: false, y: false, d: false };
    assert_eq!(tile_interaction(TileTag::Frier, true, flat, false), InteractionAction::Despawn);
    assert_eq!(tile_interaction(TileTag::Frier, false, flat, true), InteractionAction::Nothing);
    assert_eq!(
        tile_interaction(TileTag::Conveyor, true, TileFlip { x: true, y: false, d: false }, true),
        InteractionAction::Slide(MoveDirection::Down)
    );
    assert_eq!(tile_interaction(TileTag::EndTile, false, flat, true), InteractionAction::Escape);
    assert_eq!(tile_interaction(TileTag::EndTile, true, flat, false), InteractionAction::Nothing);
    assert_eq!(
        tile_interaction(TileTag::SpinningTile, true, TileFlip { x: true, y: false, d: false }, true),
        InteractionAction::Spin { clockwise: false }
    );
    assert_eq!(tile_interaction(TileTag::SpinningTile, true, flat, true), InteractionAction::Spin { clockwise: true });
    assert_eq!(tile_interaction(TileTag::StartTile, true, flat, true), InteractionAction::Nothing);
}

#[test]
fn old_special_tiles() {
    let die = DiceEncoding::new();
    let mut frier = FrierTag { active: false, cond: ActivationCondition::Even };
    assert_eq!(fry_condition_logic(&mut frier, &die), Some(8));
    assert!(frier.active);
    assert_eq!(fry_condition_logic(&mut frier, &die), None);
    assert_eq!(fry_logic(&frier), MoveDecision::DangerReached);
    let mut conveyor = ConveyorTag { active: true, cond: ActivationCondition::Odd };
    assert_eq!(conveyor_condition_logic(&mut conveyor, &die), Some(false));
    assert_eq!(conveyor_logic(&conveyor), MoveDecision::Acknowledge);
    conveyor.active = true;
    assert_eq!(conveyor_logic(&conveyor), MoveDecision::MovePlayer { spin: false, dir: Direction::Up });
    assert_eq!(end_tile_logic(), MoveDecision::EndReached);
    assert_eq!(solid_tile_logic(), MoveDecision::Acknowledge);
    let mut off = FrierTag { active: true, cond: ActivationCondition::Odd };
    assert_eq!(fry_condition_logic(&mut off, &die), Some(4));
}

#[test]
fn the_player_spawns_idle_on_the_start_tile() {
    let m = gluttony::player::spawn_player(&vec![(4, 7)]);
    assert_eq!(m.pos(), (4, 7));
    assert_eq!(m.state, MoveableState::Idle);
    assert_eq!(m.upper_side(), 4);
}

#[test]
fn every_start_tile_gets_a_player() {
    let players = gluttony::player::init_objects(&vec![(1, 2), (5, 0)], 3, 9);
    assert_eq!(players.len(), 2);
    assert_eq!(players[0].current_cell, (1, 2));
    assert_eq!(players[1].current_cell, (5, 0));
    for p in players.iter() {
        assert_eq!(p.map_id(), 3);
        assert_eq!(p.layer_id(), 9);
        assert_eq!(p.picked_anim, 0);
        assert_eq!(p.upper_side(), DiceEncoding::new().upper_side());
    }
    assert!(gluttony::player::init_objects(&vec![], 0, 0).is_empty());
}

#[test]
fn slides_keep_the_rotation_and_end_where_announced() {
    let mut m = Moveable::new((5, 5));
    m.flip(MoveDirection::Left, 5);
    update_moveable(&mut m, 5);
    update_moveable(&mut m, 0);
    let side = m.upper_side();
    assert!(m.slide(MoveDirection::Down, 5));
    let target = m.going_to_occupy().unwrap();
    assert_eq!(m.next_side(), None);
    assert!(!update_moveable(&mut m, 7));
    assert!(update_moveable(&mut m, 7));
    assert_eq!(m.pos(), target);
    assert_eq!(m.upper_side(), side);
    assert_eq!(m.state, MoveableState::Idle);
}

#[test]
fn conveyors_push_for_half_a_second() {
    let mut m = Moveable::new((3, 3));
    assert!(gluttony::player::apply_interaction(&mut m, InteractionAction::Slide(MoveDirection::Left)));
    match m.state {
        MoveableState::Moving { timer, dir, ty, .. } => {
            assert_eq!(timer.duration, 500_000_000);
            assert_eq!((dir, ty), (MoveDirection::Left, MoveTy::Slide));
        },
        other => panic!("unexpected {:?}", other),
    }
    assert!(!gluttony::player::apply_interaction(&mut m, InteractionAction::Slide(MoveDirection::Up)));
    let mut idle = Moveable::new((3, 3));
    assert!(!gluttony::player::apply_interaction(&mut idle, InteractionAction::Despawn));
    assert_eq!(idle.state, MoveableState::Idle);
}
