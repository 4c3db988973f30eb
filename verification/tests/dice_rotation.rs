use gluttony::dice::{DiceEncoding, Direction};
use gluttony::rotation::{DecomposedRotation, MoveDirection};

const DIRECTIONS: [Direction; 4] = [Direction::Up, Direction::Left, Direction::Down, Direction::Right];
const MOVES: [MoveDirection; 4] =
    [MoveDirection::Up, MoveDirection::Left, MoveDirection::Down, MoveDirection::Right];

fn opposite(d: Direction) -> Direction {
    match d {
        Direction::Up => Direction::Down,
        Direction::Down => Direction::Up,
        Direction::Left => Direction::Right,
        Direction::Right => Direction::Left,
    }
}

fn move_opposite(d: MoveDirection) -> MoveDirection {
    match d {
        MoveDirection::Up => MoveDirection::Down,
        MoveDirection::Down => MoveDirection::Up,
        MoveDirection::Left => MoveDirection::Right,
        MoveDirection::Right => MoveDirection::Left,
    }
}

#[test]
fn new_die_shows_four() {
    assert_eq!(DiceEncoding::new().upper_side(), 4);
    assert_eq!(DecomposedRotation::new().upper_side(), 4);
}

#[test]
fn direction_offsets() {
    assert_eq!(Direction::Up.to_offset(), (0, 1));
    assert_eq!(Direction::Left.to_offset(), (-1, 0));
    assert_eq!(Direction::Down.to_offset(), (0, -1));
    assert_eq!(Direction::Right.to_offset(), (1, 0));
    assert_eq!(MoveDirection::Left.to_offset(), (-1, 0));
}

#[test]
fn roll_then_back_restores_the_face() {
    for d in DIRECTIONS {
        for first in DIRECTIONS {
            let mut die = DiceEncoding::new();
            die.apply_rotation(first);
            let before = die.upper_side();
            die.apply_rotation(d);
            die.apply_rotation(opposite(d));
            assert_eq!(die.upper_side(), before);
        }
    }
}

#[test]
fn four_rolls_in_one_direction_restore_the_face() {
    for d in DIRECTIONS {
        let mut die = DiceEncoding::new();
        for _ in 0..4 {
            die.apply_rotation(d);
        }
        assert_eq!(die.upper_side(), 4);
    }
}

#[test]
fn two_rolls_show_the_opposite_face() {
    for d in DIRECTIONS {
        let mut die = DiceEncoding::new();
        die.apply_rotation(d);
        let side = die.upper_side();
        assert!(side != 4 && side != 3 && (1..=6).contains(&side));
        die.apply_rotation(d);
        assert_eq!(die.upper_side(), 3);
    }
}

#[test]
fn decomposed_rotation_laws_on_values() {
    for d in MOVES {
        let r = DecomposedRotation::new().rotate_in_dir(d);
        assert!(r.upper_side() != 4 && r.upper_side() != 3);
        assert_eq!(r.rotate_in_dir(d).upper_side(), 3);
        assert_eq!(r.rotate_in_dir(move_opposite(d)).upper_side(), 4);
        let turned = r.rotate_ortho(true);
        assert_eq!(turned.upper_side(), r.upper_side());
        assert_eq!(turned.rotate_ortho(false).upper_side(), r.upper_side());
    }
}

#[test]
fn apply_on_pos_steps_and_refuses_negative() {
    assert_eq!(MoveDirection::Up.apply_on_pos((5, 5)), Some((5, 6)));
    assert_eq!(MoveDirection::Right.apply_on_pos((5, 5)), Some((6, 5)));
    assert_eq!(MoveDirection::Left.apply_on_pos((0, 3)), None);
    assert_eq!(MoveDirection::Down.apply_on_pos((3, 0)), None);
    // A coordinate past i32::MAX reads as negative.
    assert_eq!(MoveDirection::Up.apply_on_pos((0x8000_0000, 1)), None);
}

#[test]
fn flips_of_directions() {
    assert_eq!(MoveDirection::Up.flip_x(), MoveDirection::Down);
    assert_eq!(MoveDirection::Left.flip_x(), MoveDirection::Left);
    assert_eq!(MoveDirection::Left.flip_y(), MoveDirection::Right);
    assert_eq!(MoveDirection::Up.flip_d(), MoveDirection::Right);
    assert_eq!(MoveDirection::Left.flip_d(), MoveDirection::Down);
    assert_eq!(MoveDirection::Up.apply_flipping_flags(true, false, false), MoveDirection::Down);
    assert_eq!(MoveDirection::Up.apply_flipping_flags(false, false, true), MoveDirection::Right);
    assert_eq!(MoveDirection::Up.apply_flipping_flags(true, true, true), MoveDirection::Left);
    for d in MOVES {
        assert_eq!(d.flip_x().flip_x(), d);
        assert_eq!(d.flip_y().flip_y(), d);
        assert_eq!(d.flip_d().flip_d(), d);
    }
}

#[test]
fn the_two_encodings_agree_on_a_roll_sequence() {
    let rolls = [
        (gluttony::dice::Direction::Up, gluttony::rotation::MoveDirection::Up),
        (gluttony::dice::Direction::Left, gluttony::rotation::MoveDirection::Left),
        (gluttony::dice::Direction::Left, gluttony::rotation::MoveDirection::Left),
        (gluttony::dice::Direction::Down, gluttony::rotation::MoveDirection::Down),
        (gluttony::dice::Direction::Right, gluttony::rotation::MoveDirection::Right),
        (gluttony::dice::Direction::Up, gluttony::rotation::MoveDirection::Up),
    ];
    let mut e = gluttony::dice::DiceEncoding::new();
    let mut r = gluttony::rotation::DecomposedRotation::new();
    assert_eq!(e.upper_side(), r.upper_side());
    for (d, m) in rolls.iter() {
        e.apply_rotation(*d);
        r = r.rotate_in_dir(*m);
        assert_eq!(e.upper_side(), r.upper_side());
    }
}

#[test]
fn four_rolls_show_the_four_side_faces() {
    let e = gluttony::dice::DiceEncoding::new();
    let top = e.upper_side();
    let mut seen: Vec<u8> = Vec::new();
    for d in [
        gluttony::dice::Direction::Up,
        gluttony::dice::Direction::Left,
        gluttony::dice::Direction::Down,
        gluttony::dice::Direction::Right,
    ] {
        let mut f = e;
        f.apply_rotation(d);
        seen.push(f.upper_side());
    }
    seen.sort();
    let mut expected: Vec<u8> = (1..=6).filter(|x| *x != top && *x + top != 7).collect();
    expected.sort();
    assert_eq!(seen, expected);
}
