use vstd::prelude::*;

use crate::common::{rerror, ErrorKind, RungerError};

verus! {

/// One of the four directions a player can face.
#[derive(Debug, Clone, Copy, PartialEq, Eq, Hash, Structural)]
pub enum FacingDirection {
    Up,
    Left,
    Down,
    Right,
}

/// The last action a player took; the vitals update charges for it.
#[derive(Debug, Clone, Copy, PartialEq, Eq, Hash, Structural)]
pub enum PlayerActionType {
    Idle,
    MoveForward,
    MoveBackwards,
    Turn(FacingDirection),
    Eat,
    Kill,
    BuildWall,
    ScanLOS,
}

/// Whether a player is still taking part in the generation.
#[derive(Debug, Clone, Copy, PartialEq, Eq, Hash, Structural)]
pub enum PlayerStatus {
    Alive,
    Dead,
}

/// An amount of energy.
#[derive(Debug, Clone, Copy, PartialEq, Eq, Hash, Structural)]
pub struct Energy {
    pub value: u32,
}

impl Energy {
    pub fn new(value: u32) -> (r: Energy)
        ensures
            r.value == value,
    {
        Energy { value }
    }
}

/// A player's energy and status.
#[derive(Debug, Clone, Copy, PartialEq, Eq, Hash, Structural)]
pub struct Vitals {
    pub energy: Energy,
    pub status: PlayerStatus,
}

impl Vitals {
    /// The vitals of a freshly spawned player.
    pub fn new(energy_value: u32) -> (r: Vitals)
        ensures
            r.energy.value == energy_value,
            r.status == PlayerStatus::Alive,
    {
        Vitals { energy: Energy::new(energy_value), status: PlayerStatus::Alive }
    }
}

/// The shape of the area a player scans.
#[derive(Debug, Clone, Copy, PartialEq, Eq, Hash, Structural)]
pub enum LOSType {
    StraightLine,
}

/// How far, and in which shape, a player sees.
#[derive(Debug, Clone, Copy, PartialEq, Eq, Hash, Structural)]
pub struct LineOfSight {
    pub los_type: LOSType,
    pub length: u32,
}

/// A turn command is only ever to the left or to the right.
pub open spec fn is_turn_command(d: FacingDirection) -> bool {
    d == FacingDirection::Left || d == FacingDirection::Right
}

/// An action that can be asked for: a turn is only ever to the left or to the right.
pub open spec fn is_valid_action(a: PlayerActionType) -> bool {
    match a {
        PlayerActionType::Turn(d) => is_turn_command(d),
        _ => true,
    }
}

/// The facing after a quarter turn to the left (counter-clockwise).
pub open spec fn left_of(d: FacingDirection) -> FacingDirection {
    match d {
        FacingDirection::Up => FacingDirection::Left,
        FacingDirection::Left => FacingDirection::Down,
        FacingDirection::Down => FacingDirection::Right,
        FacingDirection::Right => FacingDirection::Up,
    }
}

/// The facing after a quarter turn to the right (clockwise).
pub open spec fn right_of(d: FacingDirection) -> FacingDirection {
    match d {
        FacingDirection::Up => FacingDirection::Right,
        FacingDirection::Right => FacingDirection::Down,
        FacingDirection::Down => FacingDirection::Left,
        FacingDirection::Left => FacingDirection::Up,
    }
}

/// The facing after turning `turn` from `facing`; `turn` is a turn command.
pub open spec fn turned(facing: FacingDirection, turn: FacingDirection) -> FacingDirection {
    if turn == FacingDirection::Left {
        left_of(facing)
    } else {
        right_of(facing)
    }
}

/// The facing after a quarter turn; turning up or down is refused.
pub fn position_after_turn(is: &FacingDirection, turn_direction: FacingDirection) -> (r: Result<
    FacingDirection,
    RungerError,
>)
    ensures
        is_turn_command(turn_direction) ==> r == Ok::<FacingDirection, RungerError>(
            turned(*is, turn_direction),
        ),
        !is_turn_command(turn_direction) ==> (r matches Err(e) && e.kind == ErrorKind::IllegalTurn),
{
    match turn_direction {
        FacingDirection::Up => Err(rerror(ErrorKind::IllegalTurn)),
        FacingDirection::Down => Err(rerror(ErrorKind::IllegalTurn)),
        FacingDirection::Left => match is {
            FacingDirection::Up => Ok(FacingDirection::Left),
            FacingDirection::Right => Ok(FacingDirection::Up),
            FacingDirection::Down => Ok(FacingDirection::Right),
            FacingDirection::Left => Ok(FacingDirection::Down),
        },
        FacingDirection::Right => match is {
            FacingDirection::Up => Ok(FacingDirection::Right),
            FacingDirection::Right => Ok(FacingDirection::Down),
            FacingDirection::Down => Ok(FacingDirection::Left),
            FacingDirection::Left => Ok(FacingDirection::Up),
        },
    }
}

} // verus!
