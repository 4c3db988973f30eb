//! Things that move over the tiles of a level, one tile at a time, by
//! rolling over an edge or sliding, each move lasting as long as its timer
//! runs.

use vstd::prelude::*;
use crate::rotation::{BoxSide, DecomposedRotation, MoveDirection, step_from, step_in_range};
use crate::anim::DURATION_MAX_NANOS;

verus! {

/// How a moveable goes to the next tile.
#[derive(Debug, Clone, Copy, PartialEq, Eq, Structural)]
pub enum MoveTy {
    /// It slides, keeping its rotation.
    Slide,
    /// It rolls over its edge.
    Flip,
}

/// A one-shot timer of a move, in nanoseconds: it runs until the time
/// elapsed reaches its duration, then it is finished and stays so.
#[derive(Debug, Clone, Copy, PartialEq, Eq, Structural)]
pub struct MoveTimer {
    pub duration: u128,
    pub elapsed: u128,
    pub finished: bool,
}

/// The timer after `dt` more nanoseconds: a finished timer does not change;
/// otherwise the time elapsed grows by `dt`, and where it reaches the
/// duration the timer is finished, its time elapsed held at the duration.
pub open spec fn spec_ticked(t: MoveTimer, dt: u128) -> MoveTimer {
    if t.finished {
        t
    } else if t.elapsed + dt >= t.duration {
        MoveTimer { duration: t.duration, elapsed: t.duration, finished: true }
    } else {
        MoveTimer { duration: t.duration, elapsed: (t.elapsed + dt) as u128, finished: false }
    }
}

impl MoveTimer {
    /// A timer of `duration` nanoseconds that has not run yet.
    pub fn new(duration: u128) -> (r: Self)
        ensures
            r == (MoveTimer { duration, elapsed: 0, finished: false }),
    {
        MoveTimer { duration, elapsed: 0, finished: false }
    }

    /// Lets `dt` nanoseconds pass.
    pub fn tick(&mut self, dt: u128)
        requires
            !old(self).finished ==> old(self).elapsed + dt <= DURATION_MAX_NANOS,
        ensures
            *final(self) == spec_ticked(*old(self), dt),
    {
        if self.finished {
            return;
        }
        let elapsed = self.elapsed + dt;
        if elapsed >= self.duration {
            self.elapsed = self.duration;
            self.finished = true;
        } else {
            self.elapsed = elapsed;
        }
    }
}

/// What a moveable is doing.
#[derive(Debug, Clone, Copy, PartialEq, Eq, Structural)]
pub enum MoveableState {
    Idle,
    /// Going to the next tile in `dir` until `timer` finishes;
    /// `just_started` once the move started.
    Moving { timer: MoveTimer, dir: MoveDirection, ty: MoveTy, just_started: bool },
    /// Turning on the spot until `timer` finishes.
    Rotating { timer: MoveTimer, clock_wise: bool },
}

/// A moveable: its position, rotation and state.
#[derive(Debug, Clone, Copy)]
pub struct Moveable {
    pub pos: (u32, u32),
    pub rot: DecomposedRotation,
    pub state: MoveableState,
}

/// Whether the step the moveable is taking can be computed.
pub open spec fn step_ok(m: Moveable) -> bool {
    m.state matches MoveableState::Moving { dir, .. } ==> step_in_range(dir, m.pos)
}

/// Whether the timer of the move can run `dt` nanoseconds more without the
/// time elapsed leaving the range of a duration.
pub open spec fn tick_ok(m: Moveable, dt: u128) -> bool {
    m.state matches MoveableState::Moving { timer, .. } ==> (!timer.finished ==> timer.elapsed + dt
        <= DURATION_MAX_NANOS)
}

/// The moveable after `dt` nanoseconds more of a move whose timer has not
/// finished: its timer ticked, nothing else changed.
pub open spec fn spec_moving_on(m: Moveable, dt: u128) -> Moveable {
    match m.state {
        MoveableState::Moving { timer, dir, ty, just_started } => Moveable {
            state: MoveableState::Moving { timer: spec_ticked(timer, dt), dir, ty, just_started },
            ..m
        },
        _ => m,
    }
}

/// The cell the moveable is going to, where it is moving.
pub open spec fn spec_going_to_occupy(m: Moveable) -> Option<(u32, u32)> {
    match m.state {
        MoveableState::Moving { dir, .. } => step_from(dir, m.pos),
        _ => None,
    }
}

/// The number that will be up once the moveable's roll ends; `None` where
/// it is not rolling.
pub open spec fn spec_next_side(m: Moveable) -> Option<u8> {
    match m.state {
        MoveableState::Moving { dir, ty, .. } => if ty == MoveTy::Flip {
            Some(m.rot.rotated(dir).spec_upper_side())
        } else {
            None
        },
        _ => None,
    }
}

/// The moveable after its move ends: at the cell it went to (where there
/// is one), rolled where it rolled, idle.
pub open spec fn arrived(m: Moveable) -> Moveable {
    match m.state {
        MoveableState::Moving { dir, ty, .. } => Moveable {
            pos: match step_from(dir, m.pos) {
                Some(p) => p,
                None => m.pos,
            },
            rot: if ty == MoveTy::Flip {
                m.rot.rotated(dir)
            } else {
                m.rot
            },
            state: MoveableState::Idle,
        },
        _ => m,
    }
}

impl Moveable {
    /// A moveable placed on `pos`, idle, in the initial rotation.
    pub fn new(pos: (u32, u32)) -> (r: Self)
        ensures
            r.pos == pos,
            r.state == MoveableState::Idle,
            r.rot.ortho() == 0,
            r.rot.flat() == BoxSide::Top,
    {
        Moveable { pos, state: MoveableState::Idle, rot: DecomposedRotation::new() }
    }

    /// Whether the moveable started moving this very frame.
    pub fn just_started_moving(&self) -> (r: bool)
        ensures
            r == (self.state matches MoveableState::Moving { just_started, .. } && just_started),
    {
        match &self.state {
            MoveableState::Moving { just_started, .. } => *just_started,
            _ => false,
        }
    }

    /// The number on the moveable's upper side.
    pub fn upper_side(&self) -> (r: u8)
        ensures
            r == self.rot.spec_upper_side(),
    {
        self.rot.upper_side()
    }

    /// The moveable's rotation.
    pub fn rotation(&self) -> (r: DecomposedRotation)
        ensures
            r == self.rot,
    {
        self.rot
    }

    /// The moveable's position.
    pub fn pos(&self) -> (r: (u32, u32))
        ensures
            r == self.pos,
    {
        self.pos
    }

    /// Starts rolling in `dir` for `time` nanoseconds, where the moveable is
    /// idle; returns whether it started.
    pub fn flip(&mut self, dir: MoveDirection, time: u128) -> (r: bool)
        ensures
            r == (old(self).state == MoveableState::Idle),
            final(self).pos == old(self).pos,
            final(self).rot == old(self).rot,
            r ==> final(self).state == (MoveableState::Moving {
                timer: MoveTimer { duration: time, elapsed: 0, finished: false },
                dir,
                ty: MoveTy::Flip,
                just_started: true,
            }),
            !r ==> final(self).state == old(self).state,
    {
        match self.state {
            MoveableState::Idle => {
                self.state = MoveableState::Moving {
                    timer: MoveTimer::new(time),
                    dir,
                    ty: MoveTy::Flip,
                    just_started: true,
                };
                true
            },
            _ => false,
        }
    }

    /// Starts sliding in `dir` for `time` nanoseconds, where the moveable is
    /// idle; returns whether it started.
    pub fn slide(&mut self, dir: MoveDirection, time: u128) -> (r: bool)
        ensures
            r == (old(self).state == MoveableState::Idle),
            final(self).pos == old(self).pos,
            final(self).rot == old(self).rot,
            r ==> final(self).state == (MoveableState::Moving {
                timer: MoveTimer { duration: time, elapsed: 0, finished: false },
                dir,
                ty: MoveTy::Slide,
                just_started: true,
            }),
            !r ==> final(self).state == old(self).state,
    {
        match self.state {
            MoveableState::Idle => {
                self.state = MoveableState::Moving {
                    timer: MoveTimer::new(time),
                    dir,
                    ty: MoveTy::Slide,
                    just_started: true,
                };
                true
            },
            _ => false,
        }
    }

    /// Stops whatever the moveable is doing.
    pub fn force_idle(&mut self)
        ensures
            *final(self) == (Moveable { state: MoveableState::Idle, ..*old(self) }),
    {
        self.state = MoveableState::Idle;
    }

    /// The cell the moveable will be on once its move ends; `None` where it
    /// is not moving or the cell would have a negative coordinate.
    pub fn going_to_occupy(&self) -> (r: Option<(u32, u32)>)
        requires
            step_ok(*self),
        ensures
            r == spec_going_to_occupy(*self),
    {
        match self.state {
            MoveableState::Moving { dir, .. } => dir.apply_on_pos(self.pos),
            _ => None,
        }
    }

    /// The number that will be up once the moveable's roll ends; `None`
    /// where it is not rolling.
    pub fn next_side(&self) -> (r: Option<u8>)
        ensures
            r == spec_next_side(*self),
    {
        match self.state {
            MoveableState::Moving { dir, ty, .. } => if ty == MoveTy::Flip {
                Some(self.rot.rotate_in_dir(dir).upper_side())
            } else {
                None
            },
            _ => None,
        }
    }
}

/// Advances a moveable by `dt` nanoseconds: a move whose timer finished
/// ends, the moveable arriving at its cell; a move whose timer has not
/// finished lets its timer run. Returns whether the moveable arrived.
pub fn update_moveable(moveable: &mut Moveable, dt: u128) -> (r: bool)
    requires
        step_ok(*old(moveable)),
        tick_ok(*old(moveable), dt),
    ensures
        r == (old(moveable).state matches MoveableState::Moving { timer, .. } && timer.finished),
        r ==> *final(moveable) == arrived(*old(moveable)),
        !r ==> *final(moveable) == spec_moving_on(*old(moveable), dt),
{
    match moveable.state {
        MoveableState::Moving { timer, dir, ty, just_started } => {
            if timer.finished {
                if let Some(pos) = dir.apply_on_pos(moveable.pos) {
                    moveable.pos = pos;
                }
                if ty == MoveTy::Flip {
                    moveable.rot = moveable.rot.rotate_in_dir(dir);
                }
                moveable.state = MoveableState::Idle;
                true
            } else {
                let mut t = timer;
                t.tick(dt);
                moveable.state = MoveableState::Moving { timer: t, dir, ty, just_started };
                false
            }
        },
        _ => false,
    }
}

/// One frame of a moveable, `dt` nanoseconds long: a move towards a cell
/// that has no tile is cancelled, then the move advances.
/// `target_has_tile` tells whether the cell the moveable was going to has
/// a tile. Returns the cell the moveable arrived at, if it arrived.
pub fn moveable_tick(moveable: &mut Moveable, target_has_tile: bool, dt: u128) -> (r: Option<
    (u32, u32),
>)
    requires
        step_ok(*old(moveable)),
        tick_ok(*old(moveable), dt),
    ensures
        spec_going_to_occupy(*old(moveable)) is Some && !target_has_tile ==> *final(moveable) == (
        Moveable { state: MoveableState::Idle, ..*old(moveable) }) && r is None,
        !(spec_going_to_occupy(*old(moveable)) is Some && !target_has_tile) ==> (if old(
            moveable,
        ).state matches MoveableState::Moving { timer, .. } && timer.finished {
            *final(moveable) == arrived(*old(moveable)) && r == Some(arrived(*old(moveable)).pos)
        } else {
            *final(moveable) == spec_moving_on(*old(moveable), dt) && r is None
        }),
{
    if let Some(_) = moveable.going_to_occupy() {
        if !target_has_tile {
            moveable.force_idle();
        }
    }
    if update_moveable(moveable, dt) {
        Some(moveable.pos())
    } else {
        None
    }
}

/// A move ends as announced: the moveable arrives, idle, at the cell that
/// `going_to_occupy` named; after a roll the number that `next_side` named
/// is up, and a slide keeps the rotation.
pub proof fn law_moves_end_as_announced(m: Moveable)
    requires
        m.state is Moving,
    ensures
        arrived(m).state == MoveableState::Idle,
        spec_going_to_occupy(m) matches Some(p) ==> arrived(m).pos == p,
        spec_next_side(m) matches Some(side) ==> arrived(m).rot.spec_upper_side() == side,
        m.state matches MoveableState::Moving { ty, .. } && ty == MoveTy::Slide ==> arrived(m).rot
            == m.rot,
{
}

} // verus!
