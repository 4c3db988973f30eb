//! The player's die: its orientation, encoded with integers, and how it
//! changes when it is rolled over one of its edges.

use vstd::prelude::*;

verus! {

use FlatDiceRot::{ToUp, ToLeft, ToDown, ToRight, ToBottom, ToTop};

/// A direction in which the die can be rolled.
#[derive(Debug, Clone, Copy, PartialEq, Eq, Structural)]
pub enum Direction {
    Up,
    Left,
    Down,
    Right,
}

/// The direction opposite to `d`.
pub open spec fn opposite(d: Direction) -> Direction {
    match d {
        Direction::Up => Direction::Down,
        Direction::Left => Direction::Right,
        Direction::Down => Direction::Up,
        Direction::Right => Direction::Left,
    }
}

/// The unit offset of a direction on the grid.
pub open spec fn spec_offset(d: Direction) -> (i32, i32) {
    match d {
        Direction::Up => (0, 1),
        Direction::Left => (-1i32, 0i32),
        Direction::Down => (0i32, -1i32),
        Direction::Right => (1, 0),
    }
}

impl Direction {
    /// The grid offset one step in this direction moves by.
    pub fn to_offset(self) -> (r: (i32, i32))
        ensures
            r == spec_offset(self),
    {
        match self {
            Direction::Up => (0, 1),
            Direction::Left => (-1, 0),
            Direction::Down => (0, -1),
            Direction::Right => (1, 0),
        }
    }
}

/// The flat part of the die's rotation: which of the six base rotations
/// brings the die from its initial pose (before the orthogonal part).
#[derive(Debug, Clone, Copy, PartialEq, Eq, Structural)]
pub enum FlatDiceRot {
    ToUp,
    ToLeft,
    ToDown,
    ToRight,
    ToBottom,
    ToTop,
}

/// The number of a flat rotation (its position in the tables).
pub open spec fn flat_id(f: FlatDiceRot) -> int {
    match f {
        FlatDiceRot::ToUp => 0,
        FlatDiceRot::ToLeft => 1,
        FlatDiceRot::ToDown => 2,
        FlatDiceRot::ToRight => 3,
        FlatDiceRot::ToBottom => 4,
        FlatDiceRot::ToTop => 5,
    }
}

/// The number shown by the die's side with the given index, as the die
/// starts out: sides 0..6 show 5, 6, 2, 1, 3, 4.
pub open spec fn side_number(side: int) -> u8 {
    if side == 0 {
        5
    } else if side == 1 {
        6
    } else if side == 2 {
        2
    } else if side == 3 {
        1
    } else if side == 4 {
        3
    } else {
        4
    }
}

/// The composition table of rotations: rotating a die whose flat rotation
/// is `x` by the flat rotation `y` gives an extra orthogonal rotation (in
/// quarter turns clockwise) and a new flat rotation.
pub open spec fn rot_table(x: FlatDiceRot, y: FlatDiceRot) -> (u8, FlatDiceRot) {
    let (u, l, d, r, b, e) = (ToUp, ToLeft, ToDown, ToRight, ToBottom, ToTop);
    match y {
        ToUp => match x {
            ToUp => (0, b),
            ToLeft => (3, l),
            ToDown => (0, e),
            ToRight => (1, r),
            ToBottom => (0, d),
            ToTop => (0, u),
        },
        ToLeft => match x {
            ToUp => (1, u),
            ToLeft => (2, b),
            ToDown => (3, d),
            ToRight => (0, e),
            ToBottom => (2, r),
            ToTop => (0, l),
        },
        ToDown => match x {
            ToUp => (0, e),
            ToLeft => (1, l),
            ToDown => (0, b),
            ToRight => (3, r),
            ToBottom => (0, u),
            ToTop => (0, d),
        },
        ToRight => match x {
            ToUp => (3, u),
            ToLeft => (0, e),
            ToDown => (1, d),
            ToRight => (2, b),
            ToBottom => (2, l),
            ToTop => (0, r),
        },
        ToBottom => match x {
            ToUp => (0, d),
            ToLeft => (2, l),
            ToDown => (0, u),
            ToRight => (2, r),
            ToBottom => (0, e),
            ToTop => (0, b),
        },
        ToTop => match x {
            ToUp => (0, u),
            ToLeft => (0, l),
            ToDown => (0, d),
            ToRight => (0, r),
            ToBottom => (0, d),
            ToTop => (0, e),
        },
    }
}

/// The flat rotation that a roll in direction `d` performs.
pub open spec fn dir_rot(d: Direction) -> FlatDiceRot {
    match d {
        Direction::Up => FlatDiceRot::ToUp,
        Direction::Left => FlatDiceRot::ToLeft,
        Direction::Down => FlatDiceRot::ToDown,
        Direction::Right => FlatDiceRot::ToRight,
    }
}

/// Represenation of the die's rotation: an orthogonal rotation (quarter
/// turns clockwise, applied first) followed by a flat rotation.
#[derive(Debug, Clone, Copy)]
pub struct DiceEncoding {
    ortho_rot: u8,
    flat_rot: FlatDiceRot,
}

impl DiceEncoding {
    /// The orthogonal rotation is always a number of quarter turns below 4.
    #[verifier::type_invariant]
    pub closed spec fn wf(self) -> bool {
        self.ortho_rot < 4
    }

    /// The orthogonal part of the rotation, in quarter turns.
    pub closed spec fn ortho(self) -> int {
        self.ortho_rot as int
    }

    /// The flat part of the rotation.
    pub closed spec fn flat(self) -> FlatDiceRot {
        self.flat_rot
    }

    /// The number on the die's upper side.
    pub open spec fn spec_upper_side(self) -> u8 {
        let id = flat_id(self.flat());
        if id < 4 {
            side_number((id + self.ortho()) % 4)
        } else {
            side_number(id)
        }
    }

    /// The orthogonal and flat parts of the rotation after rolling in `d`.
    pub open spec fn rolled_parts(self, d: Direction) -> (int, FlatDiceRot) {
        let (delta, f) = rot_table(self.flat(), dir_rot(d));
        ((self.ortho() + delta) % 4, f)
    }

    /// Whether two encodings denote the same rotation.
    pub open spec fn same(self, other: DiceEncoding) -> bool {
        self.ortho() == other.ortho() && self.flat() == other.flat()
    }

    /// The die after being rolled in `d`.
    pub closed spec fn rolled(self, d: Direction) -> DiceEncoding {
        let (o, f) = self.rolled_parts(d);
        DiceEncoding { ortho_rot: o as u8, flat_rot: f }
    }

    /// Rolling gives the parts that `rolled_parts` describes.
    pub proof fn lemma_rolled(self, d: Direction)
        requires
            self.wf(),
        ensures
            self.rolled(d).wf(),
            self.rolled(d).ortho() == self.rolled_parts(d).0,
            self.rolled(d).flat() == self.rolled_parts(d).1,
    {
    }

    fn map_side(side: u8) -> (r: u8)
        requires
            side < 6,
        ensures
            r == side_number(side as int),
    {
        match side {
            0 => 5,
            1 => 6,
            2 => 2,
            3 => 1,
            4 => 3,
            _ => 4,
        }
    }

    fn flat_num(f: FlatDiceRot) -> (r: u8)
        ensures
            r as int == flat_id(f),
    {
        match f {
            FlatDiceRot::ToUp => 0,
            FlatDiceRot::ToLeft => 1,
            FlatDiceRot::ToDown => 2,
            FlatDiceRot::ToRight => 3,
            FlatDiceRot::ToBottom => 4,
            FlatDiceRot::ToTop => 5,
        }
    }

    fn rot_comp(x: FlatDiceRot, y: FlatDiceRot) -> (r: (u8, FlatDiceRot))
        ensures
            r == rot_table(x, y),
    {
        let (u, l, d, r, b, e) = (ToUp, ToLeft, ToDown, ToRight, ToBottom, ToTop);
        match y {
            ToUp => match x {
                ToUp => (0, b),
                ToLeft => (3, l),
                ToDown => (0, e),
                ToRight => (1, r),
                ToBottom => (0, d),
                ToTop => (0, u),
            },
            ToLeft => match x {
                ToUp => (1, u),
                ToLeft => (2, b),
                ToDown => (3, d),
                ToRight => (0, e),
                ToBottom => (2, r),
                ToTop => (0, l),
            },
            ToDown => match x {
                ToUp => (0, e),
                ToLeft => (1, l),
                ToDown => (0, b),
                ToRight => (3, r),
                ToBottom => (0, u),
                ToTop => (0, d),
            },
            ToRight => match x {
                ToUp => (3, u),
                ToLeft => (0, e),
                ToDown => (1, d),
                ToRight => (2, b),
                ToBottom => (2, l),
                ToTop => (0, r),
            },
            ToBottom => match x {
                ToUp => (0, d),
                ToLeft => (2, l),
                ToDown => (0, u),
                ToRight => (2, r),
                ToBottom => (0, e),
                ToTop => (0, b),
            },
            ToTop => match x {
                ToUp => (0, u),
                ToLeft => (0, l),
                ToDown => (0, d),
                ToRight => (0, r),
                ToBottom => (0, d),
                ToTop => (0, e),
            },
        }
    }

    fn dir_to_rot(x: Direction) -> (r: FlatDiceRot)
        ensures
            r == dir_rot(x),
    {
        match x {
            Direction::Up => FlatDiceRot::ToUp,
            Direction::Left => FlatDiceRot::ToLeft,
            Direction::Down => FlatDiceRot::ToDown,
            Direction::Right => FlatDiceRot::ToRight,
        }
    }

    /// The die in its initial pose: no orthogonal rotation, flat rotation
    /// `ToTop`, showing 4 on its upper side.
    pub fn new() -> (r: Self)
        ensures
            r.wf(),
            r.ortho() == 0,
            r.flat() == FlatDiceRot::ToTop,
    {
        DiceEncoding { ortho_rot: 0, flat_rot: FlatDiceRot::ToTop }
    }

    /// The number on the die's upper side.
    pub fn upper_side(&self) -> (r: u8)
        ensures
            r == self.spec_upper_side(),
    {
        proof {
            use_type_invariant(self);
        }
        let rot_id = Self::flat_num(self.flat_rot);
        if rot_id < 4 {
            Self::map_side((rot_id + self.ortho_rot) % 4)
        } else {
            Self::map_side(rot_id)
        }
    }

    /// Rolls the die over one of its edges in direction `d`.
    pub fn apply_rotation(&mut self, d: Direction)
        ensures
            final(self).wf(),
            final(self).ortho() == old(self).rolled_parts(d).0,
            final(self).flat() == old(self).rolled_parts(d).1,
            *final(self) == old(self).rolled(d),
    {
        proof {
            use_type_invariant(&*self);
        }
        let (new_ortho_rot, new_rot) = Self::rot_comp(self.flat_rot, Self::dir_to_rot(d));
        self.ortho_rot = (self.ortho_rot + new_ortho_rot) % 4;
        self.flat_rot = new_rot;
    }
}

/// Rolling the die in one direction and then back in the opposite direction
/// returns it to the rotation it had.
pub proof fn law_roll_then_back(e: DiceEncoding, d: Direction)
    requires
        e.wf(),
    ensures
        e.rolled(d).rolled(opposite(d)) == e,
{
    e.lemma_rolled(d);
    e.rolled(d).lemma_rolled(opposite(d));
    assert(e.rolled(d).rolled(opposite(d)).ortho() == e.ortho());
}

/// Rolling the die four times in the same direction returns it to the
/// rotation it had.
pub proof fn law_four_rolls(e: DiceEncoding, d: Direction)
    requires
        e.wf(),
    ensures
        e.rolled(d).rolled(d).rolled(d).rolled(d) == e,
{
    e.lemma_rolled(d);
    e.rolled(d).lemma_rolled(d);
    e.rolled(d).rolled(d).lemma_rolled(d);
    e.rolled(d).rolled(d).rolled(d).lemma_rolled(d);
    match d {
        Direction::Up => match e.flat_rot {
            ToUp => {},
            ToLeft => {},
            ToDown => {},
            ToRight => {},
            ToBottom => {},
            ToTop => {},
        },
        Direction::Left => match e.flat_rot {
            ToUp => {},
            ToLeft => {},
            ToDown => {},
            ToRight => {},
            ToBottom => {},
            ToTop => {},
        },
        Direction::Down => match e.flat_rot {
            ToUp => {},
            ToLeft => {},
            ToDown => {},
            ToRight => {},
            ToBottom => {},
            ToTop => {},
        },
        Direction::Right => match e.flat_rot {
            ToUp => {},
            ToLeft => {},
            ToDown => {},
            ToRight => {},
            ToBottom => {},
            ToTop => {},
        },
    }
}

/// The upper side always shows a number from 1 to 6.
pub proof fn law_upper_side_range(e: DiceEncoding)
    requires
        e.wf(),
    ensures
        1 <= e.spec_upper_side() <= 6,
{
}

/// Rolling the die twice in the same direction brings the opposite face up:
/// the two numbers add up to 7.
pub proof fn law_double_roll_shows_opposite_face(e: DiceEncoding, d: Direction)
    requires
        e.wf(),
    ensures
        e.rolled(d).rolled(d).spec_upper_side() + e.spec_upper_side() == 7,
{
    e.lemma_rolled(d);
    e.rolled(d).lemma_rolled(d);
    assert(e.ortho() == 0 || e.ortho() == 1 || e.ortho() == 2 || e.ortho() == 3);
    match d {
        Direction::Up => match e.flat_rot {
            ToUp => {},
            ToLeft => {},
            ToDown => {},
            ToRight => {},
            ToBottom => {},
            ToTop => {},
        },
        Direction::Left => match e.flat_rot {
            ToUp => {},
            ToLeft => {},
            ToDown => {},
            ToRight => {},
            ToBottom => {},
            ToTop => {},
        },
        Direction::Down => match e.flat_rot {
            ToUp => {},
            ToLeft => {},
            ToDown => {},
            ToRight => {},
            ToBottom => {},
            ToTop => {},
        },
        Direction::Right => match e.flat_rot {
            ToUp => {},
            ToLeft => {},
            ToDown => {},
            ToRight => {},
            ToBottom => {},
            ToTop => {},
        },
    }
}

/// A single roll always changes the upper side to a side adjacent to it:
/// neither the same number nor the one on the opposite face.
pub proof fn law_roll_changes_to_adjacent_face(e: DiceEncoding, d: Direction)
    requires
        e.wf(),
    ensures
        e.rolled(d).spec_upper_side() != e.spec_upper_side(),
        e.rolled(d).spec_upper_side() + e.spec_upper_side() != 7,
{
    e.lemma_rolled(d);
}

/// The four rolls from one pose bring up four different numbers, none of
/// them the number up before the roll nor the one on the opposite face:
/// together they are the four side faces.
pub proof fn law_four_rolls_show_four_sides(e: DiceEncoding)
    requires
        e.wf(),
    ensures
        ({
            let s = e.spec_upper_side();
            let u = e.rolled(Direction::Up).spec_upper_side();
            let l = e.rolled(Direction::Left).spec_upper_side();
            let d = e.rolled(Direction::Down).spec_upper_side();
            let r = e.rolled(Direction::Right).spec_upper_side();
            &&& u != l && u != d && u != r && l != d && l != r && d != r
            &&& set![u, l, d, r] == Set::new(|x: u8| 1 <= x <= 6 && x != s && x + s != 7)
        }),
{
    e.lemma_rolled(Direction::Up);
    e.lemma_rolled(Direction::Left);
    e.lemma_rolled(Direction::Down);
    e.lemma_rolled(Direction::Right);
    assert(e.ortho() == 0 || e.ortho() == 1 || e.ortho() == 2 || e.ortho() == 3);
    match e.flat_rot {
        ToUp => {},
        ToLeft => {},
        ToDown => {},
        ToRight => {},
        ToBottom => {},
        ToTop => {},
    }
}

} // verus!
