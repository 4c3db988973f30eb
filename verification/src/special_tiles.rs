//! Friers and conveyors that switch with the number up on the player's
//! die, and what each kind of tile decides when the player moves onto it.

use vstd::prelude::*;
use crate::dice::{DiceEncoding, Direction};
use crate::tile::ActivationCondition;

verus! {

/// The texture of an inactive frier.
pub const FRIER_OFF_TEXTURE: u16 = 4;

/// The texture of an active frier.
pub const FRIER_ON_TEXTURE: u16 = 8;

/// A frier: kills the player while active.
#[derive(Debug, Clone, Copy, PartialEq, Eq, Structural)]
pub struct FrierTag {
    pub active: bool,
    pub cond: ActivationCondition,
}

/// A conveyor: pushes the player up while active.
#[derive(Debug, Clone, Copy, PartialEq, Eq, Structural)]
pub struct ConveyorTag {
    pub active: bool,
    pub cond: ActivationCondition,
}

/// Brings a frier in line with the die: returns the texture to show where
/// its state changed.
pub fn fry_condition_logic(tag: &mut FrierTag, dice: &DiceEncoding) -> (r: Option<u16>)
    ensures
        final(tag).cond == old(tag).cond,
        final(tag).active == old(tag).cond.spec_is_active(dice.spec_upper_side()),
        r == if final(tag).active == old(tag).active {
            None
        } else if final(tag).active {
            Some(FRIER_ON_TEXTURE)
        } else {
            Some(FRIER_OFF_TEXTURE)
        },
{
    let active = tag.cond.is_active(dice.upper_side());
    if !active && tag.active {
        tag.active = false;
        Some(FRIER_OFF_TEXTURE)
    } else if active && !tag.active {
        tag.active = true;
        Some(FRIER_ON_TEXTURE)
    } else {
        None
    }
}

/// Brings a conveyor in line with the die: returns, where its state
/// changed, whether its animation starts (`true`) or stops.
pub fn conveyor_condition_logic(tag: &mut ConveyorTag, dice: &DiceEncoding) -> (r: Option<bool>)
    ensures
        final(tag).cond == old(tag).cond,
        final(tag).active == old(tag).cond.spec_is_active(dice.spec_upper_side()),
        r == if final(tag).active == old(tag).active {
            None
        } else {
            Some(final(tag).active)
        },
{
    let active = tag.cond.is_active(dice.upper_side());
    if !active && tag.active {
        tag.active = false;
        Some(false)
    } else if active && !tag.active {
        tag.active = true;
        Some(true)
    } else {
        None
    }
}

/// What a tile decides when the player moved onto it.
#[derive(Debug, Clone, Copy, PartialEq, Eq, Structural)]
pub enum MoveDecision {
    /// The move is done.
    Acknowledge,
    /// The player is moved on, rolling (`spin`) or not.
    MovePlayer { spin: bool, dir: Direction },
    /// The player reached a danger.
    DangerReached,
    /// The player reached the end of the level.
    EndReached,
}

/// A conveyor pushes the player up, unless it is inactive.
pub fn conveyor_logic(tag: &ConveyorTag) -> (r: MoveDecision)
    ensures
        r == if tag.active {
            MoveDecision::MovePlayer { spin: false, dir: Direction::Up }
        } else {
            MoveDecision::Acknowledge
        },
{
    if tag.active {
        MoveDecision::MovePlayer { spin: false, dir: Direction::Up }
    } else {
        MoveDecision::Acknowledge
    }
}

/// An active frier is a danger.
pub fn fry_logic(tag: &FrierTag) -> (r: MoveDecision)
    ensures
        r == if tag.active {
            MoveDecision::DangerReached
        } else {
            MoveDecision::Acknowledge
        },
{
    if tag.active {
        MoveDecision::DangerReached
    } else {
        MoveDecision::Acknowledge
    }
}

/// The end tile ends the level.
pub fn end_tile_logic() -> (r: MoveDecision)
    ensures
        r == MoveDecision::EndReached,
{
    MoveDecision::EndReached
}

/// A solid tile just takes the player.
pub fn solid_tile_logic() -> (r: MoveDecision)
    ensures
        r == MoveDecision::Acknowledge,
{
    MoveDecision::Acknowledge
}

} // verus!
