use vstd::prelude::*;

use crate::players::PlayerActionType;

verus! {

/// Side length of the default square grid.
pub const DEFAULT_GRID_SIZE: u32 = 100;

/// Number of ticks in one generation.
pub const TURNS_PER_GEN: u32 = 300;

/// Share of the grid's cells, in percent, that starts with a player on it.
pub const PLAYER_PERCENT: u32 = 30;

/// Share of the player count, in percent, that starts as food on the grid.
pub const FOOD_PERCENT: u32 = 50;

/// How far a backward move may carry a player.
pub const DISENGAGE_LENGTH: u32 = 3;

/// How many cells a player sees ahead of itself.
pub const DEFAULT_LOS_LENGTH: u32 = 3;

/// The number of players that a default simulation starts with.
pub fn default_player_count() -> (r: u32)
    ensures
        r == DEFAULT_GRID_SIZE * DEFAULT_GRID_SIZE * PLAYER_PERCENT / 100,
{
    DEFAULT_GRID_SIZE * DEFAULT_GRID_SIZE * PLAYER_PERCENT / 100
}

/// The number of meals that a default simulation starts with.
pub fn default_food_count() -> (r: u32)
    ensures
        r == (DEFAULT_GRID_SIZE * DEFAULT_GRID_SIZE * PLAYER_PERCENT / 100) * FOOD_PERCENT / 100,
{
    let players = default_player_count();
    players * FOOD_PERCENT / 100
}

/// The least energy a player may be spawned with.
pub fn default_energy_min() -> (r: u32)
    ensures
        r == TURNS_PER_GEN / 2,
{
    TURNS_PER_GEN / 2
}

/// The most energy a player may be spawned with.
pub fn default_energy_max() -> (r: u32)
    ensures
        r == TURNS_PER_GEN * 2 / 3,
{
    TURNS_PER_GEN * 2 / 3
}

/// The energy that a meal placed at start-up carries.
pub fn default_food_value() -> (r: u32)
    ensures
        r == TURNS_PER_GEN / 3 * 2,
{
    TURNS_PER_GEN / 3 * 2
}

/// The energy that an action costs, as a spec function.
pub open spec fn action_cost_spec(a: PlayerActionType) -> u32 {
    match a {
        PlayerActionType::Idle => 1,
        PlayerActionType::Turn(_) => 1,
        PlayerActionType::ScanLOS => 1,
        PlayerActionType::Eat => 2,
        PlayerActionType::MoveForward => 3,
        PlayerActionType::MoveBackwards => 3,
        PlayerActionType::BuildWall => 20,
        PlayerActionType::Kill => 40,
    }
}

/// The energy that the vitals update takes for the last action a player took.
pub fn action_cost(action_type: &PlayerActionType) -> (r: u32)
    ensures
        r == action_cost_spec(*action_type),
        r >= 1,
{
    match *action_type {
        PlayerActionType::Idle => 1,
        PlayerActionType::Turn(_) => 1,
        PlayerActionType::ScanLOS => 1,
        PlayerActionType::Eat => 2,
        PlayerActionType::MoveForward => 3,
        PlayerActionType::MoveBackwards => 3,
        PlayerActionType::BuildWall => 20,
        PlayerActionType::Kill => 40,
    }
}

} // verus!
