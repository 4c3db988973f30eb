//! Rotation of a moveable box (such as the die) that only ever turns by
//! quarter turns, and the four directions it can move in.

use vstd::prelude::*;

verus! {

use BoxSide::{Up, Left, Down, Right, Bottom, Top};

/// A direction a moveable can move in, on the tile grid.
#[derive(Debug, Clone, Copy, PartialEq, Eq, Structural)]
pub enum MoveDirection {
    Up,
    Left,
    Down,
    Right,
}

/// The direction opposite to `d`.
pub open spec fn move_opposite(d: MoveDirection) -> MoveDirection {
    match d {
        MoveDirection::Up => MoveDirection::Down,
        MoveDirection::Left => MoveDirection::Right,
        MoveDirection::Down => MoveDirection::Up,
        MoveDirection::Right => MoveDirection::Left,
    }
}

/// The unit offset of a direction on the grid.
pub open spec fn move_offset(d: MoveDirection) -> (i32, i32) {
    match d {
        MoveDirection::Up => (0i32, 1i32),
        MoveDirection::Left => (-1i32, 0i32),
        MoveDirection::Down => (0i32, -1i32),
        MoveDirection::Right => (1i32, 0i32),
    }
}

/// A grid coordinate read as a signed 32-bit number, the way `as i32`
/// reinterprets it.
pub open spec fn as_signed(x: u32) -> int {
    if x < 0x8000_0000 {
        x as int
    } else {
        x - 0x1_0000_0000
    }
}

/// The position one step in `d` from `(x, y)`, when it has no negative
/// coordinate.
pub open spec fn step_from(d: MoveDirection, pos: (u32, u32)) -> Option<(u32, u32)> {
    let nx = as_signed(pos.0) + move_offset(d).0;
    let ny = as_signed(pos.1) + move_offset(d).1;
    if nx < 0 || ny < 0 {
        None
    } else {
        Some((nx as u32, ny as u32))
    }
}

/// The step from `(x, y)` in `d` computes without overflowing an `i32`.
pub open spec fn step_in_range(d: MoveDirection, pos: (u32, u32)) -> bool {
    as_signed(pos.0) + move_offset(d).0 <= i32::MAX && as_signed(pos.1) + move_offset(d).1
        <= i32::MAX
}

pub open spec fn spec_flip_x(d: MoveDirection) -> MoveDirection {
    match d {
        MoveDirection::Up => MoveDirection::Down,
        MoveDirection::Down => MoveDirection::Up,
        _ => d,
    }
}

pub open spec fn spec_flip_y(d: MoveDirection) -> MoveDirection {
    match d {
        MoveDirection::Left => MoveDirection::Right,
        MoveDirection::Right => MoveDirection::Left,
        _ => d,
    }
}

pub open spec fn spec_flip_d(d: MoveDirection) -> MoveDirection {
    match d {
        MoveDirection::Up => MoveDirection::Right,
        MoveDirection::Left => MoveDirection::Down,
        MoveDirection::Down => MoveDirection::Left,
        MoveDirection::Right => MoveDirection::Up,
    }
}

/// The direction after the tile flipping flags are applied: the
/// anti-diagonal flip first, then the flip along y, then along x.
pub open spec fn spec_apply_flips(d: MoveDirection, fx: bool, fy: bool, fd: bool) -> MoveDirection {
    let d1 = if fd { spec_flip_d(d) } else { d };
    let d2 = if fy { spec_flip_y(d1) } else { d1 };
    if fx { spec_flip_x(d2) } else { d2 }
}

impl MoveDirection {
    /// The grid offset one step in this direction moves by.
    pub fn to_offset(self) -> (r: (i32, i32))
        ensures
            r == move_offset(self),
    {
        match self {
            MoveDirection::Up => (0, 1),
            MoveDirection::Left => (-1, 0),
            MoveDirection::Down => (0, -1),
            MoveDirection::Right => (1, 0),
        }
    }

    /// The position one step away in this direction, or `None` when a
    /// coordinate would become negative.
    pub fn apply_on_pos(self, pos: (u32, u32)) -> (r: Option<(u32, u32)>)
        requires
            step_in_range(self, pos),
        ensures
            r == step_from(self, pos),
    {
        let (dx, dy) = self.to_offset();
        let (px, py) = pos;
        // Each coordinate is read as a signed 32-bit number.
        let sx: i64 = if px < 0x8000_0000 { px as i64 } else { px as i64 - 0x1_0000_0000 };
        let sy: i64 = if py < 0x8000_0000 { py as i64 } else { py as i64 - 0x1_0000_0000 };
        let (x, y) = (sx + dx as i64, sy + dy as i64);
        if x < 0 || y < 0 {
            None
        } else {
            Some((x as u32, y as u32))
        }
    }

    /// Flips the direction along the x axis.
    pub fn flip_x(self) -> (r: Self)
        ensures
            r == spec_flip_x(self),
    {
        match self {
            MoveDirection::Up => MoveDirection::Down,
            MoveDirection::Down => MoveDirection::Up,
            _ => self,
        }
    }

    /// Flips the direction along the y axis.
    pub fn flip_y(self) -> (r: Self)
        ensures
            r == spec_flip_y(self),
    {
        match self {
            MoveDirection::Left => MoveDirection::Right,
            MoveDirection::Right => MoveDirection::Left,
            _ => self,
        }
    }

    /// Flips the direction anti-diagonally.
    pub fn flip_d(self) -> (r: Self)
        ensures
            r == spec_flip_d(self),
    {
        match self {
            MoveDirection::Up => MoveDirection::Right,
            MoveDirection::Left => MoveDirection::Down,
            MoveDirection::Down => MoveDirection::Left,
            MoveDirection::Right => MoveDirection::Up,
        }
    }

    /// Applies a tile's flipping flags to the direction.
    pub fn apply_flipping_flags(self, flip_x: bool, flip_y: bool, flip_d: bool) -> (r: Self)
        ensures
            r == spec_apply_flips(self, flip_x, flip_y, flip_d),
    {
        let mut d = self;
        if flip_d {
            d = d.flip_d();
        }
        if flip_y {
            d = d.flip_y();
        }
        if flip_x {
            d = d.flip_x();
        }
        d
    }
}

/// Each flip undoes itself.
pub proof fn law_flips_are_involutions(d: MoveDirection)
    ensures
        spec_flip_x(spec_flip_x(d)) == d,
        spec_flip_y(spec_flip_y(d)) == d,
        spec_flip_d(spec_flip_d(d)) == d,
{
}

/// Stepping in a direction and then in the opposite direction comes back
/// to the starting position.
pub proof fn law_step_then_back(d: MoveDirection, pos: (u32, u32))
    requires
        pos.0 <= i32::MAX,
        pos.1 <= i32::MAX,
        step_in_range(d, pos),
        step_from(d, pos) is Some,
    ensures
        step_from(move_opposite(d), step_from(d, pos).unwrap()) == Some(pos),
{
}

/// The side of the box that has been turned to face up.
#[derive(Debug, Clone, Copy, PartialEq, Eq, Structural)]
pub enum BoxSide {
    Up,
    Left,
    Down,
    Right,
    Bottom,
    Top,
}

pub open spec fn side_id(f: BoxSide) -> int {
    match f {
        Up => 0,
        Left => 1,
        Down => 2,
        Right => 3,
        Bottom => 4,
        Top => 5,
    }
}

/// The number on each side of the box in its initial pose: sides 0..6 show
/// 5, 6, 2, 1, 3, 4.
pub open spec fn box_side_number(side: int) -> u8 {
    if side == 0 {
        5
    } else if side == 1 {
        6
    } else if side == 2 {
        2
    } else if side == 3 {
        1
    } else if side == 4 {
        3
    } else {
        4
    }
}

/// The composition table of rotations: turning a box whose flat rotation
/// is `x` by the flat rotation `y` gives an extra orthogonal rotation (in
/// quarter turns clockwise) and a new flat rotation.
pub open spec fn box_rot_table(x: BoxSide, y: BoxSide) -> (u8, BoxSide) {
    let (u, l, d, r, b, e) = (Up, Left, Down, Right, Bottom, Top);
    match y {
        Up => match x {
            Up => (0, b),
            Left => (3, l),
            Down => (0, e),
            Right => (1, r),
            Bottom => (0, d),
            Top => (0, u),
        },
        Left => match x {
            Up => (1, u),
            Left => (2, b),
            Down => (3, d),
            Right => (0, e),
            Bottom => (2, r),
            Top => (0, l),
        },
        Down => match x {
            Up => (0, e),
            Left => (1, l),
            Down => (0, b),
            Right => (3, r),
            Bottom => (0, u),
            Top => (0, d),
        },
        Right => match x {
            Up => (3, u),
            Left => (0, e),
            Down => (1, d),
            Right => (2, b),
            Bottom => (2, l),
            Top => (0, r),
        },
        Bottom => match x {
            Up => (0, d),
            Left => (2, l),
            Down => (0, u),
            Right => (2, r),
            Bottom => (0, e),
            Top => (0, b),
        },
        Top => match x {
            Up => (0, u),
            Left => (0, l),
            Down => (0, d),
            Right => (0, r),
            Bottom => (0, b),
            Top => (0, e),
        },
    }
}

/// The flat rotation that a move in direction `d` performs.
pub open spec fn move_rot(d: MoveDirection) -> BoxSide {
    match d {
        MoveDirection::Up => Up,
        MoveDirection::Left => Left,
        MoveDirection::Down => Down,
        MoveDirection::Right => Right,
    }
}

/// Represents an object's rotation using integers, assuming it is only
/// ever rotated by quarter turns: an orthogonal rotation (quarter turns
/// clockwise, applied first) followed by a flat rotation.
#[derive(Debug, Clone, Copy)]
pub struct DecomposedRotation {
    ortho_rot: u8,
    flat_rot: BoxSide,
}

impl DecomposedRotation {
    /// The orthogonal rotation is always a number of quarter turns below 4.
    #[verifier::type_invariant]
    pub closed spec fn wf(self) -> bool {
        self.ortho_rot < 4
    }

    /// The orthogonal part of the rotation, in quarter turns.
    pub closed spec fn ortho(self) -> int {
        self.ortho_rot as int
    }

    /// The flat part of the rotation.
    pub closed spec fn flat(self) -> BoxSide {
        self.flat_rot
    }

    /// The number on the upper side.
    pub open spec fn spec_upper_side(self) -> u8 {
        let id = side_id(self.flat());
        if id < 4 {
            box_side_number((id + self.ortho()) % 4)
        } else {
            box_side_number(id)
        }
    }

    /// The rotation after turning over one edge in direction `d`.
    pub closed spec fn rotated(self, d: MoveDirection) -> DecomposedRotation {
        let (delta, f) = box_rot_table(self.flat(), move_rot(d));
        DecomposedRotation { ortho_rot: ((self.ortho() + delta) % 4) as u8, flat_rot: f }
    }

    /// The parts of `rotated`.
    pub proof fn lemma_rotated(self, d: MoveDirection)
        requires
            self.wf(),
        ensures
            self.rotated(d).wf(),
            self.rotated(d).ortho() == (self.ortho() + box_rot_table(self.flat(), move_rot(d)).0)
                % 4,
            self.rotated(d).flat() == box_rot_table(self.flat(), move_rot(d)).1,
    {
    }

    /// The rotation after turning a quarter turn around the vertical axis,
    /// done as three moves: up, then left (clockwise) or right
    /// (counter-clockwise), then down.
    #[verifier::opaque]
    pub open spec fn turned(self, clock_wise: bool) -> DecomposedRotation {
        if clock_wise {
            self.rotated(MoveDirection::Up).rotated(MoveDirection::Left).rotated(MoveDirection::Down)
        } else {
            self.rotated(MoveDirection::Up).rotated(MoveDirection::Right).rotated(
                MoveDirection::Down,
            )
        }
    }

    fn map_side(side: u8) -> (r: u8)
        requires
            side < 6,
        ensures
            r == box_side_number(side as int),
    {
        match side {
            0 => 5,
            1 => 6,
            2 => 2,
            3 => 1,
            4 => 3,
            _ => 4,
        }
    }

    fn side_num(f: BoxSide) -> (r: u8)
        ensures
            r as int == side_id(f),
    {
        match f {
            Up => 0,
            Left => 1,
            Down => 2,
            Right => 3,
            Bottom => 4,
            Top => 5,
        }
    }

    fn rot_comp(x: BoxSide, y: BoxSide) -> (r: (u8, BoxSide))
        ensures
            r == box_rot_table(x, y),
    {
        let (u, l, d, r, b, e) = (Up, Left, Down, Right, Bottom, Top);
        match y {
            Up => match x {
                Up => (0, b),
                Left => (3, l),
                Down => (0, e),
                Right => (1, r),
                Bottom => (0, d),
                Top => (0, u),
            },
            Left => match x {
                Up => (1, u),
                Left => (2, b),
                Down => (3, d),
                Right => (0, e),
                Bottom => (2, r),
                Top => (0, l),
            },
            Down => match x {
                Up => (0, e),
                Left => (1, l),
                Down => (0, b),
                Right => (3, r),
                Bottom => (0, u),
                Top => (0, d),
            },
            Right => match x {
                Up => (3, u),
                Left => (0, e),
                Down => (1, d),
                Right => (2, b),
                Bottom => (2, l),
                Top => (0, r),
            },
            Bottom => match x {
                Up => (0, d),
                Left => (2, l),
                Down => (0, u),
                Right => (2, r),
                Bottom => (0, e),
                Top => (0, b),
            },
            Top => match x {
                Up => (0, u),
                Left => (0, l),
                Down => (0, d),
                Right => (0, r),
                Bottom => (0, b),
                Top => (0, e),
            },
        }
    }

    fn dir_to_rot(x: MoveDirection) -> (r: BoxSide)
        ensures
            r == move_rot(x),
    {
        match x {
            MoveDirection::Up => Up,
            MoveDirection::Left => Left,
            MoveDirection::Down => Down,
            MoveDirection::Right => Right,
        }
    }

    /// The initial rotation: no orthogonal rotation and `Top` up, showing 4.
    pub fn new() -> (r: Self)
        ensures
            r.wf(),
            r.ortho() == 0,
            r.flat() == Top,
    {
        DecomposedRotation { ortho_rot: 0, flat_rot: Top }
    }

    /// The number on the upper side.
    pub fn upper_side(&self) -> (r: u8)
        ensures
            r == self.spec_upper_side(),
    {
        proof {
            use_type_invariant(self);
        }
        let rot_id = Self::side_num(self.flat_rot);
        if rot_id < 4 {
            Self::map_side((rot_id + self.ortho_rot) % 4)
        } else {
            Self::map_side(rot_id)
        }
    }

    /// The rotation after turning over one edge in direction `d`.
    pub fn rotate_in_dir(&self, d: MoveDirection) -> (r: Self)
        ensures
            r == self.rotated(d),
    {
        proof {
            use_type_invariant(self);
        }
        let (delta_ortho_rot, flat_rot) = Self::rot_comp(self.flat_rot, Self::dir_to_rot(d));
        DecomposedRotation { ortho_rot: (self.ortho_rot + delta_ortho_rot) % 4, flat_rot }
    }

    /// The rotation after a quarter turn around the vertical axis.
    pub fn rotate_ortho(&self, clock_wise: bool) -> (r: Self)
        ensures
            r == self.turned(clock_wise),
    {
        reveal(DecomposedRotation::turned);
        if clock_wise {
            self.rotate_in_dir(MoveDirection::Up).rotate_in_dir(MoveDirection::Left).rotate_in_dir(
                MoveDirection::Down,
            )
        } else {
            self.rotate_in_dir(MoveDirection::Up).rotate_in_dir(
                MoveDirection::Right,
            ).rotate_in_dir(MoveDirection::Down)
        }
    }
}

/// Turning over an edge and then back over the same edge the other way
/// returns the box to the rotation it had.
pub proof fn law_rotate_then_back(r: DecomposedRotation, d: MoveDirection)
    requires
        r.wf(),
    ensures
        r.rotated(d).rotated(move_opposite(d)) == r,
{
    r.lemma_rotated(d);
    r.rotated(d).lemma_rotated(move_opposite(d));
}

/// Turning four times in the same direction returns the box to the
/// rotation it had.
pub proof fn law_four_rotations(r: DecomposedRotation, d: MoveDirection)
    requires
        r.wf(),
    ensures
        r.rotated(d).rotated(d).rotated(d).rotated(d) == r,
{
    r.lemma_rotated(d);
    r.rotated(d).lemma_rotated(d);
    r.rotated(d).rotated(d).lemma_rotated(d);
    r.rotated(d).rotated(d).rotated(d).lemma_rotated(d);
    match r.flat_rot {
        Up => {},
        Left => {},
        Down => {},
        Right => {},
        Bottom => {},
        Top => {},
    }
}

/// The upper side always shows a number from 1 to 6.
pub proof fn law_upper_side_range(r: DecomposedRotation)
    requires
        r.wf(),
    ensures
        1 <= r.spec_upper_side() <= 6,
{
}

/// Turning twice in the same direction brings the opposite face up: the two
/// numbers add up to 7.
pub proof fn law_double_rotation_shows_opposite_face(r: DecomposedRotation, d: MoveDirection)
    requires
        r.wf(),
    ensures
        r.rotated(d).rotated(d).spec_upper_side() + r.spec_upper_side() == 7,
{
    r.lemma_rotated(d);
    r.rotated(d).lemma_rotated(d);
    assert(r.ortho() == 0 || r.ortho() == 1 || r.ortho() == 2 || r.ortho() == 3);
    match r.flat_rot {
        Up => {},
        Left => {},
        Down => {},
        Right => {},
        Bottom => {},
        Top => {},
    }
}

/// A single turn over an edge brings up a side adjacent to the old one:
/// neither the same number nor the one on the opposite face.
pub proof fn law_rotation_changes_to_adjacent_face(r: DecomposedRotation, d: MoveDirection)
    requires
        r.wf(),
    ensures
        r.rotated(d).spec_upper_side() != r.spec_upper_side(),
        r.rotated(d).spec_upper_side() + r.spec_upper_side() != 7,
{
    r.lemma_rotated(d);
}

/// The side that faces up after a quarter turn around the vertical axis,
/// and the orthogonal quarter turns that the turn adds.
pub open spec fn turn_parts(f: BoxSide, clock_wise: bool) -> (int, BoxSide) {
    if clock_wise {
        match f {
            Up => (1, Right),
            Left => (1, Up),
            Down => (1, Left),
            Right => (1, Down),
            Bottom => (3, Bottom),
            Top => (1, Top),
        }
    } else {
        match f {
            Up => (3, Left),
            Left => (3, Down),
            Down => (3, Right),
            Right => (3, Up),
            Bottom => (1, Bottom),
            Top => (3, Top),
        }
    }
}

impl DecomposedRotation {
    /// A quarter turn around the vertical axis changes the parts as
    /// `turn_parts` says.
    pub proof fn lemma_turned(self, clock_wise: bool)
        requires
            self.wf(),
        ensures
            self.turned(clock_wise).wf(),
            self.turned(clock_wise).ortho() == (self.ortho() + turn_parts(self.flat(), clock_wise).0)
                % 4,
            self.turned(clock_wise).flat() == turn_parts(self.flat(), clock_wise).1,
    {
        let r = self;
        reveal(DecomposedRotation::turned);
        r.lemma_rotated(MoveDirection::Up);
        r.rotated(MoveDirection::Up).lemma_rotated(MoveDirection::Left);
        r.rotated(MoveDirection::Up).lemma_rotated(MoveDirection::Right);
        r.rotated(MoveDirection::Up).rotated(MoveDirection::Left).lemma_rotated(MoveDirection::Down);
        r.rotated(MoveDirection::Up).rotated(MoveDirection::Right).lemma_rotated(
            MoveDirection::Down,
        );
    match r.flat_rot {
            Up => {},
            Left => {},
            Down => {},
            Right => {},
            Bottom => {},
            Top => {},
        }
    }
}

/// A quarter turn around the vertical axis keeps the upper side.
pub proof fn law_turn_keeps_upper_side(r: DecomposedRotation, clock_wise: bool)
    requires
        r.wf(),
    ensures
        r.turned(clock_wise).spec_upper_side() == r.spec_upper_side(),
{
    r.lemma_turned(clock_wise);
    assert(r.ortho() == 0 || r.ortho() == 1 || r.ortho() == 2 || r.ortho() == 3);
}

/// A clockwise quarter turn around the vertical axis followed by a
/// counter-clockwise one (or the other way round) changes nothing.
pub proof fn law_turn_then_back(r: DecomposedRotation, clock_wise: bool)
    requires
        r.wf(),
    ensures
        r.turned(clock_wise).turned(!clock_wise) == r,
{
    r.lemma_turned(clock_wise);
    r.turned(clock_wise).lemma_turned(!clock_wise);
    match r.flat_rot {
        Up => {},
        Left => {},
        Down => {},
        Right => {},
        Bottom => {},
        Top => {},
    }
}

/// Four quarter turns the same way around the vertical axis change nothing.
pub proof fn law_four_turns(r: DecomposedRotation, clock_wise: bool)
    requires
        r.wf(),
    ensures
        r.turned(clock_wise).turned(clock_wise).turned(clock_wise).turned(clock_wise) == r,
{
    r.lemma_turned(clock_wise);
    r.turned(clock_wise).lemma_turned(clock_wise);
    r.turned(clock_wise).turned(clock_wise).lemma_turned(clock_wise);
    r.turned(clock_wise).turned(clock_wise).turned(clock_wise).lemma_turned(clock_wise);
    match r.flat_rot {
        Up => {},
        Left => {},
        Down => {},
        Right => {},
        Bottom => {},
        Top => {},
    }
}

} // verus!
