//! Special tiles: when they are active, how they are animated, and how
//! they react to a moveable (such as the player's die) arriving on them.

use vstd::prelude::*;
use crate::anim::CPUAnimated;
use crate::dice::Direction;
use crate::rotation::{
    MoveDirection, DecomposedRotation, spec_apply_flips, law_double_rotation_shows_opposite_face,
    law_upper_side_range,
};
use crate::tilemap::TileFlip;

verus! {

/// When a tile is active, depending on the number on the upper side of the
/// player's die.
#[derive(Debug, Clone, Copy, PartialEq, Eq, Structural)]
pub enum ActivationCondition {
    /// The tile is active while an odd number is up.
    Odd,
    /// The tile is active while an even number is up.
    Even,
}

impl ActivationCondition {
    /// Whether the tile is active while `upper_side` is up.
    pub open spec fn spec_is_active(self, upper_side: u8) -> bool {
        match self {
            ActivationCondition::Odd => upper_side % 2 == 1,
            ActivationCondition::Even => upper_side % 2 == 0,
        }
    }

    /// Whether the tile is active while `upper_side` is up.
    pub fn is_active(self, upper_side: u8) -> (r: bool)
        ensures
            r == self.spec_is_active(upper_side),
    {
        match self {
            ActivationCondition::Odd => upper_side % 2 == 1,
            ActivationCondition::Even => upper_side % 2 == 0,
        }
    }

    /// Whether the tile is active when the level starts, with the die in
    /// its initial pose (showing 4): `Even` tiles are, `Odd` ones are not.
    pub fn active_on_start(self) -> (r: bool)
        ensures
            r == (self == ActivationCondition::Even),
            r == self.spec_is_active(4),
    {
        let side = DecomposedRotation::new().upper_side();
        self.is_active(side)
    }
}

/// Whatever number is up, exactly one of the two conditions holds: `Odd`
/// and `Even` tiles are never active, nor inactive, together.
pub proof fn law_conditions_are_complementary(upper_side: u8)
    ensures
        ActivationCondition::Odd.spec_is_active(upper_side) != ActivationCondition::Even.spec_is_active(
            upper_side,
        ),
{
}

/// Rolling the die twice in the same direction switches every activatable
/// tile: the number up goes to the opposite face, of the other parity.
pub proof fn law_double_roll_switches_every_tile(
    r: DecomposedRotation,
    d: MoveDirection,
    cond: ActivationCondition,
)
    requires
        r.wf(),
    ensures
        cond.spec_is_active(r.rotated(d).rotated(d).spec_upper_side()) != cond.spec_is_active(
            r.spec_upper_side(),
        ),
{
    law_double_rotation_shows_opposite_face(r, d);
    law_upper_side_range(r);
}

/// How an activatable tile is animated, based on its state (each number is
/// the id of a registered animation).
#[derive(Debug, Clone, Copy, PartialEq, Eq, Structural)]
pub enum ActivatableAnimating {
    /// The tile switches between two looping animations, playing a
    /// transition animation when its state is about to switch.
    Switch { on_transition: usize, off_transition: usize, on_anim: usize, off_anim: usize },
    /// The tile pauses its animation while inactive.
    Pause { anim: usize },
}

/// Whether a tile is active.
#[derive(Debug, Clone, Copy, PartialEq, Eq, Structural)]
pub struct Active {
    pub is_active: bool,
}

/// Brings a tile's state in line with the number now up. Returns whether
/// the state changed.
pub fn tile_state_switching(active: &mut Active, cond: ActivationCondition, upper_side: u8) -> (r:
    bool)
    ensures
        final(active).is_active == cond.spec_is_active(upper_side),
        r == (old(active).is_active != cond.spec_is_active(upper_side)),
{
    let new_state = cond.is_active(upper_side);
    if new_state != active.is_active {
        active.is_active = new_state;
        true
    } else {
        false
    }
}

/// The transition animation to start on a tile as the die starts moving
/// towards a position where `next_side` will be up, if any: only a
/// `Switch` tile whose state is about to change plays one, the off
/// transition when it is active and the on transition otherwise.
pub fn tile_transition_animating(
    next_side: u8,
    cond: ActivationCondition,
    active: Active,
    animating: ActivatableAnimating,
) -> (r: Option<usize>)
    ensures
        r == (if active.is_active == cond.spec_is_active(next_side) {
            None
        } else {
            match animating {
                ActivatableAnimating::Switch { on_transition, off_transition, .. } => Some(
                    if active.is_active {
                        off_transition
                    } else {
                        on_transition
                    },
                ),
                ActivatableAnimating::Pause { .. } => None,
            }
        }),
{
    if active.is_active == cond.is_active(next_side) {
        return None;
    }
    match animating {
        ActivatableAnimating::Switch { on_transition, off_transition, .. } => Some(
            if active.is_active {
                off_transition
            } else {
                on_transition
            },
        ),
        ActivatableAnimating::Pause { .. } => None,
    }
}

/// Switches a tile's animation after its state changed: a `Switch` tile
/// starts its on (or off) animation, looping and unpaused; a `Pause` tile
/// pauses while inactive.
pub fn tile_animating_switch(
    active: Active,
    animated: &mut CPUAnimated,
    animating: ActivatableAnimating,
)
    ensures
        match animating {
            ActivatableAnimating::Switch { on_anim, off_anim, .. } => {
                &&& final(animated).spec_animation() == (if active.is_active {
                    on_anim
                } else {
                    off_anim
                })
                &&& !final(animated).spec_paused()
                &&& final(animated).spec_looping()
                &&& !final(animated).spec_is_done()
                &&& final(animated).spec_frame() == 0
                &&& final(animated).spec_passed() == 0
            },
            ActivatableAnimating::Pause { .. } => {
                &&& final(animated).spec_paused() == !active.is_active
                &&& final(animated).spec_looping() == old(animated).spec_looping()
                &&& final(animated).spec_animation() == old(animated).spec_animation()
                &&& final(animated).spec_is_done() == old(animated).spec_is_done()
                &&& final(animated).spec_frame() == old(animated).spec_frame()
                &&& final(animated).spec_passed() == old(animated).spec_passed()
            },
        },
{
    match animating {
        ActivatableAnimating::Switch { on_anim, off_anim, .. } => animated.set_animation(
            if active.is_active {
                on_anim
            } else {
                off_anim
            },
            false,
            true,
        ),
        ActivatableAnimating::Pause { .. } => animated.set_paused(!active.is_active),
    }
}

/// The direction a conveyor pushes in: up, turned by the tile's flipping.
pub fn conveyor_direction(flip: TileFlip) -> (r: MoveDirection)
    ensures
        r == spec_apply_flips(MoveDirection::Up, flip.x, flip.y, flip.d),
{
    MoveDirection::Up.apply_flipping_flags(flip.x, flip.y, flip.d)
}

/// Whether a spinning tile turns what stands on it clockwise: it does
/// unless an odd number of its flipping flags is set.
pub fn spinning_clockwise(flip: TileFlip) -> (r: bool)
    ensures
        r == !(flip.x ^ flip.y ^ flip.d),
{
    !(flip.x ^ flip.y ^ flip.d)
}

/// A tile that switches between active and inactive with the player's
/// upper side.
#[derive(Debug, Clone, Copy)]
pub struct ActivatableTileTag {
    state: bool,
    condition: ActivationCondition,
    anim_info: ActivatableAnimating,
}

impl ActivatableTileTag {
    /// Whether the tile is active.
    pub closed spec fn spec_state(self) -> bool {
        self.state
    }

    pub closed spec fn spec_condition(self) -> ActivationCondition {
        self.condition
    }

    pub closed spec fn spec_anim_info(self) -> ActivatableAnimating {
        self.anim_info
    }

    /// A tile in the state it has when the level starts.
    pub fn new(condition: ActivationCondition, anim_info: ActivatableAnimating) -> (r: Self)
        ensures
            r.spec_state() == condition.spec_is_active(4),
            r.spec_condition() == condition,
            r.spec_anim_info() == anim_info,
    {
        ActivatableTileTag { state: condition.active_on_start(), condition, anim_info }
    }

    /// Whether the tile is active.
    pub fn is_active(&self) -> (r: bool)
        ensures
            r == self.spec_state(),
    {
        self.state
    }

    /// Whether the tile will be active once `side` is up.
    pub fn will_be_active(&self, side: u8) -> (r: bool)
        ensures
            r == self.spec_condition().spec_is_active(side),
    {
        self.condition.is_active(side)
    }

    /// Brings the tile's state in line with `side` being up. Returns `true`
    /// if the state changed (and the tile's logic needs updating).
    pub fn update(&mut self, side: u8) -> (r: bool)
        ensures
            final(self).spec_state() == old(self).spec_condition().spec_is_active(side),
            final(self).spec_condition() == old(self).spec_condition(),
            final(self).spec_anim_info() == old(self).spec_anim_info(),
            r == (old(self).spec_state() != final(self).spec_state()),
    {
        let new_state = self.will_be_active(side);
        let result = self.state != new_state;
        self.state = new_state;
        result
    }
}

/// What a tile tells the player to do after the player moved onto it.
#[derive(Debug, Clone, Copy, PartialEq, Eq, Structural)]
pub enum PlayerModification {
    /// The move is done; the player awaits input again.
    AcknowledgeMove,
    /// The player is pushed on in a direction.
    Slide(Direction),
    /// The player dies.
    Kill,
    /// The player has reached the exit.
    Escape,
}

/// A tile's role in the level.
#[derive(Debug, Clone, Copy, PartialEq, Eq, Structural)]
pub enum TileRole {
    /// Pushes the player upwards while active.
    Conveyor,
    /// Kills the player while active.
    Frier,
    /// Where the player starts.
    Start,
    /// The level's exit.
    End,
    /// Plain floor.
    Solid,
}

/// The reaction of a tile with the given role to the player arriving,
/// where `active` is whether the tile is active.
pub fn react(role: TileRole, active: bool) -> (r: PlayerModification)
    ensures
        r == match role {
            TileRole::Conveyor => if active {
                PlayerModification::Slide(Direction::Up)
            } else {
                PlayerModification::AcknowledgeMove
            },
            TileRole::Frier => if active {
                PlayerModification::Kill
            } else {
                PlayerModification::AcknowledgeMove
            },
            TileRole::End => PlayerModification::Escape,
            TileRole::Start | TileRole::Solid => PlayerModification::AcknowledgeMove,
        },
{
    match role {
        TileRole::Conveyor => if active {
            PlayerModification::Slide(Direction::Up)
        } else {
            PlayerModification::AcknowledgeMove
        },
        TileRole::Frier => if active {
            PlayerModification::Kill
        } else {
            PlayerModification::AcknowledgeMove
        },
        TileRole::End => PlayerModification::Escape,
        TileRole::Start | TileRole::Solid => PlayerModification::AcknowledgeMove,
    }
}

} // verus!
