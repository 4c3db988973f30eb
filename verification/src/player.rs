//! The player's die: its cell and rotation, the controls that roll it, and
//! what the special tiles do to whatever arrives on them.

use vstd::prelude::*;
use crate::dice::{DiceEncoding, Direction, FlatDiceRot};
use crate::level::TileTag;
use crate::moveable::{Moveable, MoveableState, MoveTimer, MoveTy};
use crate::rotation::{BoxSide, DecomposedRotation};
use crate::rotation::{MoveDirection, as_signed, spec_apply_flips};
use crate::tile::{conveyor_direction, spinning_clockwise};
use crate::tilemap::TileFlip;

verus! {

/// The player.
#[derive(Debug, Clone, Copy)]
pub struct Player {
    pub picked_anim: u8,
    /// The map the player traverses.
    map_id: u16,
    /// The layer the player traverses.
    layer_id: u16,
    /// The rotation of the die.
    pub state: DiceEncoding,
    pub current_cell: (u32, u32),
}

/// A coordinate moved by an offset, read as a signed 32-bit number and
/// turned back into an unsigned one (a negative result wraps around).
pub open spec fn offset_coord(x: u32, off: i32) -> u32 {
    let s = as_signed(x) + off;
    if s < 0 {
        (s + 0x1_0000_0000) as u32
    } else {
        s as u32
    }
}

/// Moving the coordinate by the offset stays within the signed 32-bit
/// range.
pub open spec fn offset_in_range(x: u32, off: i32) -> bool {
    i32::MIN <= as_signed(x) + off <= i32::MAX
}

/// `(x as i32 + off) as u32`.
fn move_coord(x: u32, off: i32) -> (r: u32)
    requires
        offset_in_range(x, off),
    ensures
        r == offset_coord(x, off),
{
    let sx: i64 = if x < 0x8000_0000 {
        x as i64
    } else {
        x as i64 - 0x1_0000_0000
    };
    let s = sx + off as i64;
    if s < 0 {
        (s + 0x1_0000_0000) as u32
    } else {
        s as u32
    }
}

impl Player {
    pub closed spec fn spec_picked_anim(self) -> u8 {
        self.picked_anim
    }

    /// The rotation of the die.
    pub closed spec fn spec_dice(self) -> DiceEncoding {
        self.state
    }

    pub closed spec fn spec_cell(self) -> (u32, u32) {
        self.current_cell
    }

    pub closed spec fn spec_map_id(self) -> u16 {
        self.map_id
    }

    pub closed spec fn spec_layer_id(self) -> u16 {
        self.layer_id
    }

    /// A player on `start` of the given map and layer, the die in its
    /// initial pose.
    pub fn new(start: (u32, u32), map_id: u16, layer_id: u16) -> (r: Self)
        ensures
            r.spec_picked_anim() == 0,
            r.spec_map_id() == map_id,
            r.spec_layer_id() == layer_id,
            r.spec_cell() == start,
            r.spec_dice().ortho() == 0,
            r.spec_dice().flat() == crate::dice::FlatDiceRot::ToTop,
    {
        Player { picked_anim: 0, map_id, layer_id, current_cell: start, state: DiceEncoding::new() }
    }

    /// Rolls the die in `dir`; returns its new rotation.
    pub fn apply_rotation(&mut self, dir: Direction) -> (r: DiceEncoding)
        ensures
            final(self).spec_dice() == old(self).spec_dice().rolled(dir),
            r == final(self).spec_dice(),
            final(self).spec_cell() == old(self).spec_cell(),
            final(self).spec_picked_anim() == old(self).spec_picked_anim(),
            final(self).spec_map_id() == old(self).spec_map_id(),
            final(self).spec_layer_id() == old(self).spec_layer_id(),
    {
        self.state.apply_rotation(dir);
        self.state
    }

    /// The number on the die's upper side.
    pub fn upper_side(&self) -> (r: u8)
        ensures
            r == self.spec_dice().spec_upper_side(),
    {
        self.state.upper_side()
    }

    /// The cell at an offset from the player's.
    pub fn next_cell(&self, off: (i32, i32)) -> (r: (u32, u32))
        requires
            offset_in_range(self.spec_cell().0, off.0),
            offset_in_range(self.spec_cell().1, off.1),
        ensures
            r == (offset_coord(self.spec_cell().0, off.0), offset_coord(self.spec_cell().1, off.1)),
    {
        (move_coord(self.current_cell.0, off.0), move_coord(self.current_cell.1, off.1))
    }

    pub fn map_id(&self) -> (r: u16)
        ensures
            r == self.spec_map_id(),
    {
        self.map_id
    }

    pub fn layer_id(&self) -> (r: u16)
        ensures
            r == self.spec_layer_id(),
    {
        self.layer_id
    }
}

/// The direction the movement keys ask for: of the keys held, the last of
/// W (up), A (left), S (down), D (right) wins.
pub open spec fn spec_movement(w: bool, a: bool, s: bool, d: bool) -> Option<MoveDirection> {
    if d {
        Some(MoveDirection::Right)
    } else if s {
        Some(MoveDirection::Down)
    } else if a {
        Some(MoveDirection::Left)
    } else if w {
        Some(MoveDirection::Up)
    } else {
        None
    }
}

/// The direction to roll the player in, from which of the W, A, S and D
/// keys are held.
pub fn player_controls(w: bool, a: bool, s: bool, d: bool) -> (r: Option<MoveDirection>)
    ensures
        r == spec_movement(w, a, s, d),
{
    let mut movement = None;
    if w {
        movement = Some(MoveDirection::Up);
    }
    if a {
        movement = Some(MoveDirection::Left);
    }
    if s {
        movement = Some(MoveDirection::Down);
    }
    if d {
        movement = Some(MoveDirection::Right);
    }
    movement
}

/// What happens to a moveable that arrived on a special tile.
#[derive(Debug, Clone, Copy, PartialEq, Eq, Structural)]
pub enum InteractionAction {
    Nothing,
    /// The moveable is destroyed.
    Despawn,
    /// The moveable slides on in a direction.
    Slide(MoveDirection),
    /// The player escapes the level.
    Escape,
    /// The moveable turns on the spot.
    Spin { clockwise: bool },
}

/// What a tile with the given tag does to a moveable arriving on it: an
/// active frier destroys it, an active conveyor pushes it in the
/// direction of its flipping, the exit lets the player escape and an
/// active spinning tile turns it.
pub open spec fn spec_tile_interaction(
    tag: TileTag,
    active: bool,
    flip: TileFlip,
    is_player: bool,
) -> InteractionAction {
    match tag {
        TileTag::Frier => if active {
            InteractionAction::Despawn
        } else {
            InteractionAction::Nothing
        },
        TileTag::Conveyor => if active {
            InteractionAction::Slide(spec_apply_flips(MoveDirection::Up, flip.x, flip.y, flip.d))
        } else {
            InteractionAction::Nothing
        },
        TileTag::EndTile => if is_player {
            InteractionAction::Escape
        } else {
            InteractionAction::Nothing
        },
        TileTag::SpinningTile => if active {
            InteractionAction::Spin { clockwise: !(flip.x ^ flip.y ^ flip.d) }
        } else {
            InteractionAction::Nothing
        },
        TileTag::StartTile => InteractionAction::Nothing,
    }
}

/// What a tile does to a moveable arriving on it.
pub fn tile_interaction(tag: TileTag, active: bool, flip: TileFlip, is_player: bool) -> (r:
    InteractionAction)
    ensures
        r == spec_tile_interaction(tag, active, flip, is_player),
{
    match tag {
        TileTag::Frier => if active {
            InteractionAction::Despawn
        } else {
            InteractionAction::Nothing
        },
        TileTag::Conveyor => if active {
            InteractionAction::Slide(conveyor_direction(flip))
        } else {
            InteractionAction::Nothing
        },
        TileTag::EndTile => if is_player {
            InteractionAction::Escape
        } else {
            InteractionAction::Nothing
        },
        TileTag::SpinningTile => if active {
            InteractionAction::Spin { clockwise: spinning_clockwise(flip) }
        } else {
            InteractionAction::Nothing
        },
        TileTag::StartTile => InteractionAction::Nothing,
    }
}

/// An active spinning tile turns what arrives on it clockwise unless it
/// is flipped, and setting or clearing any one of its flipping flags
/// reverses the way it turns; an unflipped active conveyor pushes up.
pub proof fn law_flags_reverse_spinning(flip: TileFlip, is_player: bool)
    ensures
        spec_tile_interaction(
            TileTag::SpinningTile,
            true,
            TileFlip { x: false, y: false, d: false },
            is_player,
        ) == (InteractionAction::Spin { clockwise: true }),
        spec_tile_interaction(
            TileTag::Conveyor,
            true,
            TileFlip { x: false, y: false, d: false },
            is_player,
        ) == InteractionAction::Slide(MoveDirection::Up),
        spec_tile_interaction(TileTag::SpinningTile, true, flip, is_player) matches
            InteractionAction::Spin { clockwise } ==> {
            &&& spec_tile_interaction(
                TileTag::SpinningTile,
                true,
                TileFlip { x: !flip.x, ..flip },
                is_player,
            ) == (InteractionAction::Spin { clockwise: !clockwise })
            &&& spec_tile_interaction(
                TileTag::SpinningTile,
                true,
                TileFlip { y: !flip.y, ..flip },
                is_player,
            ) == (InteractionAction::Spin { clockwise: !clockwise })
            &&& spec_tile_interaction(
                TileTag::SpinningTile,
                true,
                TileFlip { d: !flip.d, ..flip },
                is_player,
            ) == (InteractionAction::Spin { clockwise: !clockwise })
        },
        spec_tile_interaction(TileTag::SpinningTile, true, flip, is_player) is Spin,
{
}

/// Only an active tile acts: an inactive tile of any kind but the exit
/// does nothing. A moveable is destroyed only by an active frier, pushed
/// only by an active conveyor and turned only by an active spinning tile;
/// it escapes exactly when it is the player arriving on the exit.
pub proof fn law_only_active_tiles_act(tag: TileTag, active: bool, flip: TileFlip, is_player: bool)
    ensures
        tag != TileTag::EndTile && !active ==> spec_tile_interaction(tag, active, flip, is_player)
            == InteractionAction::Nothing,
        spec_tile_interaction(tag, active, flip, is_player) is Despawn ==> tag == TileTag::Frier
            && active,
        spec_tile_interaction(tag, active, flip, is_player) is Slide ==> tag == TileTag::Conveyor
            && active,
        spec_tile_interaction(tag, active, flip, is_player) is Spin ==> tag
            == TileTag::SpinningTile && active,
        spec_tile_interaction(tag, active, flip, is_player) is Escape <==> tag == TileTag::EndTile
            && is_player,
        tag == TileTag::Frier && active ==> spec_tile_interaction(tag, active, flip, is_player)
            == InteractionAction::Despawn,
        tag == TileTag::Conveyor && active ==> spec_tile_interaction(tag, active, flip, is_player)
            is Slide,
        tag == TileTag::StartTile ==> spec_tile_interaction(tag, active, flip, is_player)
            == InteractionAction::Nothing,
{
}


/// How long a conveyor pushes a moveable, in nanoseconds (half a second).
pub const CONVEYOR_PUSH_NANOS: u128 = 500_000_000;

/// Carries out what a tile does to a moveable that arrived on it, as far as
/// the moveable's own motion goes: a conveyor's push starts a slide of
/// `CONVEYOR_PUSH_NANOS` in its direction, where the moveable is idle.
/// Returns whether a move started.
pub fn apply_interaction(moveable: &mut Moveable, action: InteractionAction) -> (r: bool)
    ensures
        action matches InteractionAction::Slide(dir) ==> r == (old(moveable).state
            == MoveableState::Idle) && (r ==> final(moveable).state == (MoveableState::Moving {
            timer: MoveTimer { duration: CONVEYOR_PUSH_NANOS, elapsed: 0, finished: false },
            dir,
            ty: MoveTy::Slide,
            just_started: true,
        })) && final(moveable).pos == old(moveable).pos && final(moveable).rot == old(
            moveable,
        ).rot && (!r ==> *final(moveable) == *old(moveable)),
        !(action is Slide) ==> !r && *final(moveable) == *old(moveable),
{
    match action {
        InteractionAction::Slide(dir) => moveable.slide(dir, CONVEYOR_PUSH_NANOS),
        _ => false,
    }
}

/// The player's die as it enters the level: idle on the level's one start
/// tile, in its initial pose.
pub fn spawn_player(starts: &Vec<(u32, u32)>) -> (r: Moveable)
    requires
        starts@.len() == 1,
    ensures
        r.pos == starts@[0],
        r.state == MoveableState::Idle,
        r.rot.ortho() == 0,
        r.rot.flat() == BoxSide::Top,
{
    Moveable::new(starts[0])
}

/// The players of a level, one on each start tile, on the given map and
/// layer.
pub fn init_objects(starts: &Vec<(u32, u32)>, map_id: u16, layer_id: u16) -> (r: Vec<Player>)
    ensures
        r@.len() == starts@.len(),
        forall|i: int|
            0 <= i < r@.len() ==> (#[trigger] r@[i]).spec_cell() == starts@[i] && r@[i].spec_map_id()
                == map_id && r@[i].spec_layer_id() == layer_id && r@[i].spec_picked_anim() == 0
                && r@[i].spec_dice().ortho() == 0 && r@[i].spec_dice().flat()
                == crate::dice::FlatDiceRot::ToTop,
{
    let mut players: Vec<Player> = Vec::new();
    let mut i: usize = 0;
    while i < starts.len()
        invariant
            i <= starts@.len(),
            players@.len() == i,
            forall|k: int|
                0 <= k < i ==> (#[trigger] players@[k]).spec_cell() == starts@[k]
                    && players@[k].spec_map_id() == map_id && players@[k].spec_layer_id() == layer_id
                    && players@[k].spec_picked_anim() == 0 && players@[k].spec_dice().ortho() == 0
                    && players@[k].spec_dice().flat() == crate::dice::FlatDiceRot::ToTop,
        decreases starts@.len() - i,
    {
        players.push(Player::new(starts[i], map_id, layer_id));
        i = i + 1;
    }
    players
}

/// The move direction a roll of the die goes in.
pub open spec fn roll_move(d: Direction) -> MoveDirection {
    match d {
        Direction::Up => MoveDirection::Up,
        Direction::Left => MoveDirection::Left,
        Direction::Down => MoveDirection::Down,
        Direction::Right => MoveDirection::Right,
    }
}

/// The side of a box that a flat rotation of the die turns up.
pub open spec fn flat_side(f: FlatDiceRot) -> BoxSide {
    match f {
        FlatDiceRot::ToUp => BoxSide::Up,
        FlatDiceRot::ToLeft => BoxSide::Left,
        FlatDiceRot::ToDown => BoxSide::Down,
        FlatDiceRot::ToRight => BoxSide::Right,
        FlatDiceRot::ToBottom => BoxSide::Bottom,
        FlatDiceRot::ToTop => BoxSide::Top,
    }
}

/// Whether the die's encoding and a box rotation denote the same pose.
pub open spec fn same_pose(e: DiceEncoding, r: DecomposedRotation) -> bool {
    e.ortho() == r.ortho() && flat_side(e.flat()) == r.flat()
}

/// The die after the rolls `ds`, in order.
pub open spec fn roll_all(e: DiceEncoding, ds: Seq<Direction>) -> DiceEncoding
    decreases ds.len(),
{
    if ds.len() == 0 {
        e
    } else {
        roll_all(e, ds.drop_last()).rolled(ds.last())
    }
}

/// The box after the same rolls, as moves.
pub open spec fn rotate_all(r: DecomposedRotation, ds: Seq<Direction>) -> DecomposedRotation
    decreases ds.len(),
{
    if ds.len() == 0 {
        r
    } else {
        rotate_all(r, ds.drop_last()).rotated(roll_move(ds.last()))
    }
}

/// One roll keeps the two encodings of a pose in step.
pub proof fn lemma_roll_keeps_same_pose(e: DiceEncoding, r: DecomposedRotation, d: Direction)
    requires
        e.wf(),
        r.wf(),
        same_pose(e, r),
    ensures
        e.rolled(d).wf(),
        r.rotated(roll_move(d)).wf(),
        same_pose(e.rolled(d), r.rotated(roll_move(d))),
{
    e.lemma_rolled(d);
    r.lemma_rotated(roll_move(d));
    match d {
        Direction::Up => match e.flat() {
            FlatDiceRot::ToUp => {},
            FlatDiceRot::ToLeft => {},
            FlatDiceRot::ToDown => {},
            FlatDiceRot::ToRight => {},
            FlatDiceRot::ToBottom => {},
            FlatDiceRot::ToTop => {},
        },
        Direction::Left => match e.flat() {
            FlatDiceRot::ToUp => {},
            FlatDiceRot::ToLeft => {},
            FlatDiceRot::ToDown => {},
            FlatDiceRot::ToRight => {},
            FlatDiceRot::ToBottom => {},
            FlatDiceRot::ToTop => {},
        },
        Direction::Down => match e.flat() {
            FlatDiceRot::ToUp => {},
            FlatDiceRot::ToLeft => {},
            FlatDiceRot::ToDown => {},
            FlatDiceRot::ToRight => {},
            FlatDiceRot::ToBottom => {},
            FlatDiceRot::ToTop => {},
        },
        Direction::Right => match e.flat() {
            FlatDiceRot::ToUp => {},
            FlatDiceRot::ToLeft => {},
            FlatDiceRot::ToDown => {},
            FlatDiceRot::ToRight => {},
            FlatDiceRot::ToBottom => {},
            FlatDiceRot::ToTop => {},
        },
    }
}

/// The die's encoding and the moveable's rotation agree on every sequence
/// of rolls: started in the same pose (as both start), they stay in the
/// same pose and show the same number up after any rolls.
pub proof fn law_encodings_agree(e: DiceEncoding, r: DecomposedRotation, ds: Seq<Direction>)
    requires
        e.wf(),
        r.wf(),
        same_pose(e, r),
    ensures
        roll_all(e, ds).wf(),
        rotate_all(r, ds).wf(),
        same_pose(roll_all(e, ds), rotate_all(r, ds)),
        roll_all(e, ds).spec_upper_side() == rotate_all(r, ds).spec_upper_side(),
    decreases ds.len(),
{
    if ds.len() > 0 {
        law_encodings_agree(e, r, ds.drop_last());
        lemma_roll_keeps_same_pose(roll_all(e, ds.drop_last()), rotate_all(r, ds.drop_last()), ds.last());
    }
    match roll_all(e, ds).flat() {
        FlatDiceRot::ToUp => {},
        FlatDiceRot::ToLeft => {},
        FlatDiceRot::ToDown => {},
        FlatDiceRot::ToRight => {},
        FlatDiceRot::ToBottom => {},
        FlatDiceRot::ToTop => {},
    }
}

/// The die and the moveable start in the same pose.
pub proof fn lemma_start_poses_agree(e: DiceEncoding, r: DecomposedRotation)
    requires
        e.ortho() == 0,
        e.flat() == FlatDiceRot::ToTop,
        r.ortho() == 0,
        r.flat() == BoxSide::Top,
    ensures
        same_pose(e, r),
{
}

} // verus!
