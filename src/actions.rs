use vstd::prelude::*;

use crate::board::{lemma_occ_update, lemma_with_food_wf, PlayerBundle, SimView, Simulation};
use crate::common::{
    ahead, cell_index, first_occupant, first_seen, get_los_tiles, lemma_cell_index,
    lemma_retreat_on_board, los_tiles, pos_in, retreat, room, steps_from, BoardPosition, ErrorKind,
    OccupantType, RungerError,
};
use crate::config::{action_cost, action_cost_spec};
use crate::players::{
    is_turn_command, position_after_turn, turned, Energy, FacingDirection, PlayerActionType,
    PlayerStatus, Vitals,
};

verus! {

/// A player asks to kill whatever player stands one cell ahead.
#[derive(Debug, Clone, Copy, PartialEq, Eq, Hash, Structural)]
pub struct KillEvent {
    pub killer_id: usize,
    pub killer_facing: FacingDirection,
}

/// A player asks to eat the food one cell ahead.
#[derive(Debug, Clone, Copy, PartialEq, Eq, Hash, Structural)]
pub struct EatEvent {
    pub gorger_id: usize,
    pub gorger_facing: FacingDirection,
}

/// A player asks to move: `Up` is one step forward, `Down` a retreat backwards.
#[derive(Debug, Clone, Copy, PartialEq, Eq, Hash, Structural)]
pub struct MoveEvent {
    pub mover_id: usize,
    pub mover_pos: BoardPosition,
    pub mover_facing: FacingDirection,
    pub movement_direction: FacingDirection,
}

/// A player asks to turn left or right.
#[derive(Debug, Clone, Copy, PartialEq, Eq, Hash, Structural)]
pub struct TurnEvent {
    pub turner_id: usize,
    pub turner_facing: FacingDirection,
    pub turn_direction: FacingDirection,
}

/// A player asks to build a wall on the cell ahead.
#[derive(Debug, Clone, Copy, PartialEq, Eq, Hash, Structural)]
pub struct BuildWallEvent {
    pub builder_id: usize,
}

/// A player asks to scan its line of sight.
#[derive(Debug, Clone, Copy, PartialEq, Eq, Hash, Structural)]
pub struct ScanLOSEvent {
    pub scanner_id: usize,
    pub scanner_facing: FacingDirection,
}

/// What a scan saw first.
#[derive(Debug, Clone, Copy, PartialEq, Eq, Hash, Structural)]
pub struct LOSReportEvent {
    pub scanner_id: usize,
    pub scanned_type: OccupantType,
}

/// A player is to pay the energy cost of its last action.
#[derive(Debug, Clone, Copy, PartialEq, Eq, Hash, Structural)]
pub struct UpdateVitalsEvent {
    pub hungerer_id: usize,
}

/// Addition that stops at the largest `u32`.
pub open spec fn sat_add(a: u32, b: u32) -> u32 {
    if a + b > u32::MAX {
        u32::MAX
    } else {
        (a + b) as u32
    }
}

/// Subtraction that stops at zero.
pub open spec fn sat_sub(a: u32, b: u32) -> u32 {
    if a < b {
        0
    } else {
        (a - b) as u32
    }
}

// ---------------------------------------------------------------------------
// Turning

/// The state after a turn request: the turner faces the new way and records the turn.
/// A request for a turn up or down, or for a player not in play, changes nothing.
pub open spec fn after_turn(v: SimView, e: TurnEvent) -> SimView {
    let id = e.turner_id as int;
    if v.has_player(id) && is_turn_command(e.turn_direction) {
        v.with_player(
            id,
            PlayerBundle {
                is_facing: turned(e.turner_facing, e.turn_direction),
                last_action: PlayerActionType::Turn(e.turn_direction),
                ..v.player(id)
            },
        )
    } else {
        v
    }
}

// ---------------------------------------------------------------------------
// Moving

/// A move request is forward (`Up`) or backward (`Down`).
pub open spec fn is_move_command(d: FacingDirection) -> bool {
    d == FacingDirection::Up || d == FacingDirection::Down
}

/// The action a successful move records.
pub open spec fn move_action(d: FacingDirection) -> PlayerActionType {
    if d == FacingDirection::Up {
        PlayerActionType::MoveForward
    } else {
        PlayerActionType::MoveBackwards
    }
}

/// The cell a move would lead to: one step ahead, or the end of a retreat.
pub open spec fn move_target(v: SimView, e: MoveEvent) -> Option<BoardPosition> {
    let pos = v.player(e.mover_id as int).board_pos;
    if e.movement_direction == FacingDirection::Up {
        ahead(v.size, pos, e.mover_facing)
    } else {
        let t = retreat(v.size, v.cells, pos, e.mover_facing, v.disengage_length as nat);
        if t == pos {
            None
        } else {
            Some(t)
        }
    }
}

/// A move succeeds when its target is on the board and empty.
pub open spec fn move_succeeds(v: SimView, e: MoveEvent) -> bool {
    &&& v.has_player(e.mover_id as int)
    &&& is_move_command(e.movement_direction)
    &&& move_target(v, e) is Some
    &&& v.occ(move_target(v, e)->Some_0) == OccupantType::Empty
}

/// The state after a move request. On success the mover's handle leaves its cell for the
/// target; on failure the mover records that it idled. A request that is neither forward
/// nor backward, or for a player not in play, changes nothing.
pub open spec fn after_move(v: SimView, e: MoveEvent) -> SimView {
    let id = e.mover_id as int;
    if !v.has_player(id) || !is_move_command(e.movement_direction) {
        v
    } else if move_succeeds(v, e) {
        let pl = v.player(id);
        let t = move_target(v, e)->Some_0;
        SimView {
            cells: v.cells.update(cell_index(v.size, pl.board_pos), OccupantType::Empty).update(
                cell_index(v.size, t),
                OccupantType::Player(e.mover_id),
            ),
            players: v.players.update(
                id,
                Some(
                    PlayerBundle {
                        board_pos: t,
                        last_action: move_action(e.movement_direction),
                        ..pl
                    },
                ),
            ),
            ..v
        }
    } else {
        v.with_last_action(id, PlayerActionType::Idle)
    }
}

// ---------------------------------------------------------------------------
// Eating

/// The cell an eater looks at.
pub open spec fn eat_target(v: SimView, e: EatEvent) -> Option<BoardPosition> {
    ahead(v.size, v.player(e.gorger_id as int).board_pos, e.gorger_facing)
}

/// Eating succeeds when the cell ahead holds food.
pub open spec fn eat_succeeds(v: SimView, e: EatEvent) -> bool {
    &&& v.has_player(e.gorger_id as int)
    &&& eat_target(v, e) is Some
    &&& v.occ(eat_target(v, e)->Some_0) is Food
}

/// The state after an eat request. On success the food's energy is added to the
/// eater's, the food leaves its arena and its cell becomes empty; on failure the
/// eater records that it idled.
pub open spec fn after_eat(v: SimView, e: EatEvent) -> SimView {
    let id = e.gorger_id as int;
    if !v.has_player(id) {
        v
    } else if eat_succeeds(v, e) {
        let pl = v.player(id);
        let t = eat_target(v, e)->Some_0;
        let f = v.occ(t)->Food_0 as int;
        let gain = v.foods[f]->Some_0.energy_value.value;
        SimView {
            cells: v.cells.update(cell_index(v.size, t), OccupantType::Empty),
            foods: v.foods.update(f, None),
            players: v.players.update(
                id,
                Some(
                    PlayerBundle {
                        vitals: Vitals {
                            energy: Energy { value: sat_add(pl.vitals.energy.value, gain) },
                            ..pl.vitals
                        },
                        last_action: PlayerActionType::Eat,
                        ..pl
                    },
                ),
            ),
            ..v
        }
    } else {
        v.with_last_action(id, PlayerActionType::Idle)
    }
}

// ---------------------------------------------------------------------------
// Killing

/// The cell a killer looks at.
pub open spec fn kill_target(v: SimView, e: KillEvent) -> Option<BoardPosition> {
    ahead(v.size, v.player(e.killer_id as int).board_pos, e.killer_facing)
}

/// Killing succeeds when the cell ahead holds a player that is alive.
pub open spec fn kill_succeeds(v: SimView, e: KillEvent) -> bool {
    &&& v.has_player(e.killer_id as int)
    &&& kill_target(v, e) is Some
    &&& v.occ(kill_target(v, e)->Some_0) is Player
    &&& v.player(v.occ(kill_target(v, e)->Some_0)->Player_0 as int).vitals.status
        == PlayerStatus::Alive
}

/// The state right after a successful kill, before the body is placed: the victim's
/// cell is empty, the victim is out of play and the killer records the kill.
pub open spec fn kill_cleared(v: SimView, e: KillEvent) -> SimView {
    let id = e.killer_id as int;
    let t = kill_target(v, e)->Some_0;
    let victim = v.occ(t)->Player_0 as int;
    SimView {
        cells: v.cells.update(cell_index(v.size, t), OccupantType::Empty),
        players: v.players.update(victim, None).update(
            id,
            Some(PlayerBundle { last_action: PlayerActionType::Kill, ..v.player(id) }),
        ),
        ..v
    }
}

/// The state after a kill request. On success the victim leaves play and its cell, the
/// killer records the kill, and the victim's body is placed on its cell as food carrying
/// the victim's remaining energy (when the food arena has room). On failure the killer
/// records that it idled.
pub open spec fn after_kill(v: SimView, e: KillEvent) -> SimView {
    let id = e.killer_id as int;
    if !v.has_player(id) {
        v
    } else if kill_succeeds(v, e) {
        let t = kill_target(v, e)->Some_0;
        let victim = v.occ(t)->Player_0 as int;
        if v.foods.len() < usize::MAX {
            kill_cleared(v, e).with_food(t, v.player(victim).vitals.energy.value)
        } else {
            kill_cleared(v, e)
        }
    } else {
        v.with_last_action(id, PlayerActionType::Idle)
    }
}

// ---------------------------------------------------------------------------
// Building walls

/// The cell a builder looks at, along the way it currently faces.
pub open spec fn build_target(v: SimView, e: BuildWallEvent) -> Option<BoardPosition> {
    let pl = v.player(e.builder_id as int);
    ahead(v.size, pl.board_pos, pl.is_facing)
}

/// Building succeeds when the cell ahead is empty and the wall arena has room.
pub open spec fn build_succeeds(v: SimView, e: BuildWallEvent) -> bool {
    &&& v.has_player(e.builder_id as int)
    &&& build_target(v, e) is Some
    &&& v.occ(build_target(v, e)->Some_0) == OccupantType::Empty
    &&& v.walls.len() < usize::MAX
}

/// The state after a build request: a new wall on the cell ahead, or an idle builder.
pub open spec fn after_build(v: SimView, e: BuildWallEvent) -> SimView {
    let id = e.builder_id as int;
    if !v.has_player(id) {
        v
    } else if build_succeeds(v, e) {
        let t = build_target(v, e)->Some_0;
        SimView {
            cells: v.cells.update(cell_index(v.size, t), OccupantType::Wall(v.walls.len() as usize)),
            walls: v.walls.push(crate::board::WallBundle { board_pos: t }),
            players: v.players.update(
                id,
                Some(PlayerBundle { last_action: PlayerActionType::BuildWall, ..v.player(id) }),
            ),
            ..v
        }
    } else {
        v.with_last_action(id, PlayerActionType::Idle)
    }
}

// ---------------------------------------------------------------------------
// Scanning

/// The first occupant a scanner sees along its line of sight, if any.
pub open spec fn scan_report(v: SimView, e: ScanLOSEvent) -> Option<OccupantType> {
    let pl = v.player(e.scanner_id as int);
    if v.has_player(e.scanner_id as int) {
        first_seen(v.size, v.cells, los_tiles(v.size, pl.board_pos, e.scanner_facing, pl.los.length as int))
    } else {
        None
    }
}

/// The state after a scan: only the scanner's last action changes.
pub open spec fn after_scan(v: SimView, e: ScanLOSEvent) -> SimView {
    if v.has_player(e.scanner_id as int) {
        v.with_last_action(e.scanner_id as int, PlayerActionType::ScanLOS)
    } else {
        v
    }
}

// ---------------------------------------------------------------------------
// Vitals

/// The state after a player pays for its last action; at zero energy it is dead.
pub open spec fn after_vitals(v: SimView, e: UpdateVitalsEvent) -> SimView {
    let id = e.hungerer_id as int;
    if v.has_player(id) {
        let pl = v.player(id);
        let energy = sat_sub(pl.vitals.energy.value, action_cost_spec(pl.last_action));
        let status = if energy == 0 {
            PlayerStatus::Dead
        } else {
            pl.vitals.status
        };
        v.with_player(
            id,
            PlayerBundle {
                vitals: Vitals { energy: Energy { value: energy }, status },
                ..pl
            },
        )
    } else {
        v
    }
}

// ---------------------------------------------------------------------------
// Lemmas: each step keeps the board and the arenas in agreement.

/// Replacing a player's record without moving it keeps the state well formed.
pub proof fn lemma_with_player_wf(v: SimView, id: int, pl: PlayerBundle)
    requires
        v.wf(),
        v.has_player(id),
        pl.board_pos == v.player(id).board_pos,
    ensures
        v.with_player(id, pl).wf(),
{
    let w = v.with_player(id, pl);
    assert forall|p: BoardPosition| pos_in(w.size, p) implies #[trigger] w.cell_ok(p) by {
        assert(v.cell_ok(p));
    }
    assert forall|i: int| 0 <= i < w.players.len() implies #[trigger] w.player_ok(i) by {
        assert(v.player_ok(i));
    }
    assert forall|i: int| 0 <= i < w.foods.len() implies #[trigger] w.food_ok(i) by {
        assert(v.food_ok(i));
    }
    assert forall|i: int| 0 <= i < w.walls.len() implies #[trigger] w.wall_ok(i) by {
        assert(v.wall_ok(i));
    }
}

/// A turn request keeps the state well formed.
pub proof fn lemma_after_turn_wf(v: SimView, e: TurnEvent)
    requires
        v.wf(),
    ensures
        after_turn(v, e).wf(),
{
    let id = e.turner_id as int;
    if v.has_player(id) && is_turn_command(e.turn_direction) {
        lemma_with_player_wf(
            v,
            id,
            PlayerBundle {
                is_facing: turned(e.turner_facing, e.turn_direction),
                last_action: PlayerActionType::Turn(e.turn_direction),
                ..v.player(id)
            },
        );
    }
}

/// A move request keeps the state well formed.
pub proof fn lemma_after_move_wf(v: SimView, e: MoveEvent)
    requires
        v.wf(),
    ensures
        after_move(v, e).wf(),
{
    let id = e.mover_id as int;
    if !v.has_player(id) || !is_move_command(e.movement_direction) {
    } else if move_succeeds(v, e) {
        let pl = v.player(id);
        let s = pl.board_pos;
        let t = move_target(v, e)->Some_0;
        assert(v.player_ok(id));
        if e.movement_direction != FacingDirection::Up {
            lemma_retreat_on_board(v.size, v.cells, s, e.mover_facing, v.disengage_length as nat);
        }
        lemma_cell_index(v.size, s, t);
        lemma_cell_index(v.size, t, s);
        let mid = v.cells.update(cell_index(v.size, s), OccupantType::Empty);
        let w = after_move(v, e);
        let x = OccupantType::Player(e.mover_id);
        assert(v.occ(s) == x);
        assert(s != t);
        assert forall|q: BoardPosition| pos_in(w.size, q) implies #[trigger] w.cell_ok(q) by {
            lemma_occ_update(v.size, v.cells, s, OccupantType::Empty, q);
            lemma_occ_update(v.size, mid, t, x, q);
            assert(v.cell_ok(q));
        }
        assert forall|i: int| 0 <= i < w.players.len() implies #[trigger] w.player_ok(i) by {
            assert(v.player_ok(i));
            if i == id {
                lemma_occ_update(v.size, v.cells, s, OccupantType::Empty, t);
                lemma_occ_update(v.size, mid, t, x, t);
            } else if let Some(pl) = v.players[i] {
                lemma_occ_update(v.size, v.cells, s, OccupantType::Empty, pl.board_pos);
                lemma_occ_update(v.size, mid, t, x, pl.board_pos);
            }
        }
        assert forall|i: int| 0 <= i < w.foods.len() implies #[trigger] w.food_ok(i) by {
            assert(v.food_ok(i));
            if let Some(fd) = v.foods[i] {
                lemma_occ_update(v.size, v.cells, s, OccupantType::Empty, fd.board_pos);
                lemma_occ_update(v.size, mid, t, x, fd.board_pos);
            }
        }
        assert forall|i: int| 0 <= i < w.walls.len() implies #[trigger] w.wall_ok(i) by {
            assert(v.wall_ok(i));
            lemma_occ_update(v.size, v.cells, s, OccupantType::Empty, v.walls[i].board_pos);
            lemma_occ_update(v.size, mid, t, x, v.walls[i].board_pos);
        }
    } else {
        lemma_with_player_wf(
            v,
            id,
            PlayerBundle { last_action: PlayerActionType::Idle, ..v.player(id) },
        );
    }
}

/// An eat request keeps the state well formed.
pub proof fn lemma_after_eat_wf(v: SimView, e: EatEvent)
    requires
        v.wf(),
    ensures
        after_eat(v, e).wf(),
{
    let id = e.gorger_id as int;
    if !v.has_player(id) {
    } else if eat_succeeds(v, e) {
        let t = eat_target(v, e)->Some_0;
        let f = v.occ(t)->Food_0 as int;
        assert(v.cell_ok(t));
        lemma_cell_index(v.size, t, t);
        let w = after_eat(v, e);
        assert forall|q: BoardPosition| pos_in(w.size, q) implies #[trigger] w.cell_ok(q) by {
            lemma_occ_update(v.size, v.cells, t, OccupantType::Empty, q);
            assert(v.cell_ok(q));
        }
        assert forall|i: int| 0 <= i < w.players.len() implies #[trigger] w.player_ok(i) by {
            assert(v.player_ok(i));
            if let Some(pl) = v.players[i] {
                lemma_occ_update(v.size, v.cells, t, OccupantType::Empty, pl.board_pos);
            }
        }
        assert forall|i: int| 0 <= i < w.foods.len() implies #[trigger] w.food_ok(i) by {
            assert(v.food_ok(i));
            if i != f {
                if let Some(fd) = v.foods[i] {
                    lemma_occ_update(v.size, v.cells, t, OccupantType::Empty, fd.board_pos);
                }
            }
        }
        assert forall|i: int| 0 <= i < w.walls.len() implies #[trigger] w.wall_ok(i) by {
            assert(v.wall_ok(i));
            lemma_occ_update(v.size, v.cells, t, OccupantType::Empty, v.walls[i].board_pos);
        }
    } else {
        lemma_with_player_wf(
            v,
            id,
            PlayerBundle { last_action: PlayerActionType::Idle, ..v.player(id) },
        );
    }
}

/// Clearing a victim off the board keeps the state well formed and leaves its cell empty.
pub proof fn lemma_kill_cleared_wf(v: SimView, e: KillEvent)
    requires
        v.wf(),
        kill_succeeds(v, e),
    ensures
        kill_cleared(v, e).wf(),
        kill_cleared(v, e).occ(kill_target(v, e)->Some_0) == OccupantType::Empty,
        pos_in(v.size, kill_target(v, e)->Some_0),
{
    let id = e.killer_id as int;
    let t = kill_target(v, e)->Some_0;
    let victim = v.occ(t)->Player_0 as int;
    assert(v.cell_ok(t));
    assert(v.player_ok(id));
    lemma_cell_index(v.size, t, t);
    let cleared = kill_cleared(v, e);
    assert(victim != id);
    assert forall|q: BoardPosition| pos_in(cleared.size, q) implies #[trigger] cleared.cell_ok(q) by {
        lemma_occ_update(v.size, v.cells, t, OccupantType::Empty, q);
        assert(v.cell_ok(q));
    }
    assert forall|i: int| 0 <= i < cleared.players.len() implies #[trigger] cleared.player_ok(i) by {
        assert(v.player_ok(i));
        if i != victim {
            if let Some(pl) = v.players[i] {
                lemma_occ_update(v.size, v.cells, t, OccupantType::Empty, pl.board_pos);
            }
        }
    }
    assert forall|i: int| 0 <= i < cleared.foods.len() implies #[trigger] cleared.food_ok(i) by {
        assert(v.food_ok(i));
        if let Some(fd) = v.foods[i] {
            lemma_occ_update(v.size, v.cells, t, OccupantType::Empty, fd.board_pos);
        }
    }
    assert forall|i: int| 0 <= i < cleared.walls.len() implies #[trigger] cleared.wall_ok(i) by {
        assert(v.wall_ok(i));
        lemma_occ_update(v.size, v.cells, t, OccupantType::Empty, v.walls[i].board_pos);
    }
    lemma_occ_update(v.size, v.cells, t, OccupantType::Empty, t);
}

/// A kill request keeps the state well formed.
pub proof fn lemma_after_kill_wf(v: SimView, e: KillEvent)
    requires
        v.wf(),
    ensures
        after_kill(v, e).wf(),
{
    let id = e.killer_id as int;
    if !v.has_player(id) {
    } else if kill_succeeds(v, e) {
        let t = kill_target(v, e)->Some_0;
        let victim = v.occ(t)->Player_0 as int;
        lemma_kill_cleared_wf(v, e);
        if v.foods.len() < usize::MAX {
            lemma_with_food_wf(kill_cleared(v, e), t, v.player(victim).vitals.energy.value);
        }
    } else {
        lemma_with_player_wf(
            v,
            id,
            PlayerBundle { last_action: PlayerActionType::Idle, ..v.player(id) },
        );
    }
}

/// The cells of a line of sight lie on the board.
pub proof fn lemma_los_tiles_on_board(size: int, p: BoardPosition, d: FacingDirection, n: int)
    requires
        0 < size <= crate::common::MAX_GRID_SIZE,
        pos_in(size, p),
        0 <= n,
    ensures
        forall|k: int|
            0 <= k < los_tiles(size, p, d, n).len() ==> pos_in(
                size,
                #[trigger] los_tiles(size, p, d, n)[k],
            ),
{
    assert forall|k: int|
        0 <= k < los_tiles(size, p, d, n).len() implies pos_in(
        size,
        #[trigger] los_tiles(size, p, d, n)[k],
    ) by {
        assert(los_tiles(size, p, d, n)[k] == steps_from(p, d, k + 1));
        assert(k + 1 <= room(size, p, d));
        match d {
            FacingDirection::Up => assert(p.y + k + 1 < size),
            FacingDirection::Right => assert(p.x + k + 1 < size),
            FacingDirection::Down => assert(p.y - k - 1 >= 0),
            FacingDirection::Left => assert(p.x - k - 1 >= 0),
        }
    }
}

/// A build request keeps the state well formed.
pub proof fn lemma_after_build_wf(v: SimView, e: BuildWallEvent)
    requires
        v.wf(),
    ensures
        after_build(v, e).wf(),
{
    let id = e.builder_id as int;
    if !v.has_player(id) {
    } else if build_succeeds(v, e) {
        let t = build_target(v, e)->Some_0;
        let x = OccupantType::Wall(v.walls.len() as usize);
        lemma_cell_index(v.size, t, t);
        let w = after_build(v, e);
        assert forall|q: BoardPosition| pos_in(w.size, q) implies #[trigger] w.cell_ok(q) by {
            lemma_occ_update(v.size, v.cells, t, x, q);
            assert(v.cell_ok(q));
        }
        assert forall|i: int| 0 <= i < w.players.len() implies #[trigger] w.player_ok(i) by {
            assert(v.player_ok(i));
            if let Some(pl) = v.players[i] {
                lemma_occ_update(v.size, v.cells, t, x, pl.board_pos);
            }
        }
        assert forall|i: int| 0 <= i < w.foods.len() implies #[trigger] w.food_ok(i) by {
            assert(v.food_ok(i));
            if let Some(fd) = v.foods[i] {
                lemma_occ_update(v.size, v.cells, t, x, fd.board_pos);
            }
        }
        assert forall|i: int| 0 <= i < w.walls.len() implies #[trigger] w.wall_ok(i) by {
            if i < v.walls.len() {
                assert(v.wall_ok(i));
                lemma_occ_update(v.size, v.cells, t, x, v.walls[i].board_pos);
            } else {
                lemma_occ_update(v.size, v.cells, t, x, t);
            }
        }
    } else {
        lemma_with_player_wf(
            v,
            id,
            PlayerBundle { last_action: PlayerActionType::Idle, ..v.player(id) },
        );
    }
}

/// A scan keeps the state well formed.
pub proof fn lemma_after_scan_wf(v: SimView, e: ScanLOSEvent)
    requires
        v.wf(),
    ensures
        after_scan(v, e).wf(),
{
    if v.has_player(e.scanner_id as int) {
        lemma_with_player_wf(
            v,
            e.scanner_id as int,
            PlayerBundle { last_action: PlayerActionType::ScanLOS, ..v.player(e.scanner_id as int) },
        );
    }
}

/// A vitals update keeps the state well formed.
pub proof fn lemma_after_vitals_wf(v: SimView, e: UpdateVitalsEvent)
    requires
        v.wf(),
    ensures
        after_vitals(v, e).wf(),
{
    let id = e.hungerer_id as int;
    if v.has_player(id) {
        let pl = v.player(id);
        let energy = sat_sub(pl.vitals.energy.value, action_cost_spec(pl.last_action));
        let status = if energy == 0 {
            PlayerStatus::Dead
        } else {
            pl.vitals.status
        };
        lemma_with_player_wf(
            v,
            id,
            PlayerBundle { vitals: Vitals { energy: Energy { value: energy }, status }, ..pl },
        );
    }
}

// ---------------------------------------------------------------------------
// Resolvers

impl Simulation {
    fn set_last_action(&mut self, id: usize, a: PlayerActionType)
        requires
            old(self)@.wf(),
            old(self)@.has_player(id as int),
        ensures
            final(self)@ == old(self)@.with_last_action(id as int, a),
            final(self)@.wf(),
    {
        proof {
            lemma_with_player_wf(
                self@,
                id as int,
                PlayerBundle { last_action: a, ..self@.player(id as int) },
            );
        }
        let pl = self.players[id].unwrap();
        self.players.set(
            id,
            Some(
                PlayerBundle {
                    board_pos: pl.board_pos,
                    is_facing: pl.is_facing,
                    vitals: pl.vitals,
                    los: pl.los,
                    last_action: a,
                },
            ),
        );
    }

    /// Resolves a turn request: the player faces the new way and records the turn.
    /// Only turns to the left or to the right can be asked for. Returns whether the
    /// player is in play, and so turned.
    pub fn player_turn(&mut self, event: &TurnEvent) -> (r: bool)
        requires
            old(self)@.wf(),
            is_turn_command(event.turn_direction),
        ensures
            final(self)@.wf(),
            final(self)@ == after_turn(old(self)@, *event),
            r == old(self)@.has_player(event.turner_id as int),
    {
        let id = event.turner_id;
        if id >= self.players.len() {
            return false;
        }
        let pl = match self.players[id] {
            Some(pl) => pl,
            None => {
                return false;
            },
        };
        match position_after_turn(&event.turner_facing, event.turn_direction) {
            Ok(facing) => {
                proof {
                    lemma_after_turn_wf(self@, *event);
                }
                self.players.set(
                    id,
                    Some(
                        PlayerBundle {
                            board_pos: pl.board_pos,
                            is_facing: facing,
                            vitals: pl.vitals,
                            los: pl.los,
                            last_action: PlayerActionType::Turn(event.turn_direction),
                        },
                    ),
                );
                true
            },
            Err(_) => false,
        }
    }

    /// Resolves a move request, forward (`Up`) one cell or backward (`Down`) as far as
    /// the disengage length and the board allow. Returns whether the player moved; on
    /// failure it records that it idled.
    pub fn move_player(&mut self, event: &MoveEvent) -> (r: bool)
        requires
            old(self)@.wf(),
            is_move_command(event.movement_direction),
        ensures
            final(self)@.wf(),
            final(self)@ == after_move(old(self)@, *event),
            r == move_succeeds(old(self)@, *event),
    {
        let id = event.mover_id;
        if id >= self.players.len() {
            return false;
        }
        let pl = match self.players[id] {
            Some(pl) => pl,
            None => {
                return false;
            },
        };
        proof {
            lemma_after_move_wf(self@, *event);
            assert(self@.player_ok(id as int));
            lemma_retreat_on_board(
                self@.size,
                self@.cells,
                pl.board_pos,
                event.mover_facing,
                self.disengage_length as nat,
            );
        }
        let target: Option<(BoardPosition, OccupantType)> = match event.movement_direction {
            FacingDirection::Up => match self.board.looking_at(&pl.board_pos, &event.mover_facing) {
                Some((pos, occ)) => Some((pos, *occ)),
                None => None,
            },
            FacingDirection::Down => match self.board.disengage_to(
                &pl.board_pos,
                &event.mover_facing,
                self.disengage_length,
            ) {
                Some((pos, occ)) => Some((pos, *occ)),
                None => None,
            },
            _ => {
                return false;
            },
        };
        match target {
            Some((new_pos, new_tile_occ)) => {
                if new_tile_occ == OccupantType::Empty {
                    self.board.add_occ(pl.board_pos, OccupantType::Empty);
                    self.board.add_occ(new_pos, OccupantType::Player(id));
                    let action = if event.movement_direction == FacingDirection::Up {
                        PlayerActionType::MoveForward
                    } else {
                        PlayerActionType::MoveBackwards
                    };
                    self.players.set(
                        id,
                        Some(
                            PlayerBundle {
                                board_pos: new_pos,
                                is_facing: pl.is_facing,
                                vitals: pl.vitals,
                                los: pl.los,
                                last_action: action,
                            },
                        ),
                    );
                    true
                } else {
                    self.set_last_action(id, PlayerActionType::Idle);
                    false
                }
            },
            None => {
                self.set_last_action(id, PlayerActionType::Idle);
                false
            },
        }
    }

    /// Resolves an eat request: food on the cell ahead is eaten and its energy added to
    /// the eater's (stopping at the largest `u32`). Returns whether the player ate; on
    /// failure it records that it idled.
    pub fn player_eat(&mut self, event: &EatEvent) -> (r: bool)
        requires
            old(self)@.wf(),
        ensures
            final(self)@.wf(),
            final(self)@ == after_eat(old(self)@, *event),
            r == eat_succeeds(old(self)@, *event),
    {
        let id = event.gorger_id;
        if id >= self.players.len() {
            return false;
        }
        let pl = match self.players[id] {
            Some(pl) => pl,
            None => {
                return false;
            },
        };
        proof {
            lemma_after_eat_wf(self@, *event);
            assert(self@.player_ok(id as int));
        }
        let target: Option<(BoardPosition, OccupantType)> = match self.board.looking_at(
            &pl.board_pos,
            &event.gorger_facing,
        ) {
            Some((pos, occ)) => Some((pos, *occ)),
            None => None,
        };
        if let Some((pos, OccupantType::Food(food_id))) = target {
            proof {
                assert(self@.cell_ok(pos));
                lemma_cell_index(self@.size, pos, pos);
            }
            let food = self.foods[food_id].unwrap();
            let energy = pl.vitals.energy.value.saturating_add(food.energy_value.value);
            self.board.add_occ(pos, OccupantType::Empty);
            self.foods.set(food_id, None);
            self.players.set(
                id,
                Some(
                    PlayerBundle {
                        board_pos: pl.board_pos,
                        is_facing: pl.is_facing,
                        vitals: Vitals { energy: Energy::new(energy), status: pl.vitals.status },
                        los: pl.los,
                        last_action: PlayerActionType::Eat,
                    },
                ),
            );
            true
        } else {
            self.set_last_action(id, PlayerActionType::Idle);
            false
        }
    }

    /// Resolves a kill request: a living player on the cell ahead leaves play and its
    /// body is placed there as food with the energy it had left. Returns whether the
    /// kill happened; on failure the killer records that it idled. A kill whose body
    /// cannot be placed, because the food arena is full, still happens and is reported
    /// as that error.
    pub fn player_kill(&mut self, event: &KillEvent) -> (r: Result<bool, RungerError>)
        requires
            old(self)@.wf(),
        ensures
            final(self)@.wf(),
            final(self)@ == after_kill(old(self)@, *event),
            kill_succeeds(old(self)@, *event) && old(self)@.foods.len() == usize::MAX ==> r == Err::<
                bool,
                RungerError,
            >(RungerError { kind: ErrorKind::ArenaFull }),
            !(kill_succeeds(old(self)@, *event) && old(self)@.foods.len() == usize::MAX) ==> r
                == Ok::<bool, RungerError>(kill_succeeds(old(self)@, *event)),
    {
        let id = event.killer_id;
        if id >= self.players.len() {
            return Ok(false);
        }
        let pl = match self.players[id] {
            Some(pl) => pl,
            None => {
                return Ok(false);
            },
        };
        proof {
            lemma_after_kill_wf(self@, *event);
            assert(self@.player_ok(id as int));
        }
        let target: Option<(BoardPosition, OccupantType)> = match self.board.looking_at(
            &pl.board_pos,
            &event.killer_facing,
        ) {
            Some((pos, occ)) => Some((pos, *occ)),
            None => None,
        };
        if let Some((victim_pos, OccupantType::Player(victim_id))) = target {
            proof {
                assert(self@.cell_ok(victim_pos));
            }
            let victim = self.players[victim_id].unwrap();
            if victim.vitals.status == PlayerStatus::Alive {
                proof {
                    lemma_kill_cleared_wf(self@, *event);
                }
                self.board.add_occ(victim_pos, OccupantType::Empty);
                self.players.set(victim_id, None);
                self.players.set(
                    id,
                    Some(
                        PlayerBundle {
                            board_pos: pl.board_pos,
                            is_facing: pl.is_facing,
                            vitals: pl.vitals,
                            los: pl.los,
                            last_action: PlayerActionType::Kill,
                        },
                    ),
                );
                return match self.place_food_at(
                    victim_pos,
                    crate::board::FoodType::DeadMeat(victim.vitals.energy.value),
                ) {
                    Ok(()) => Ok(true),
                    Err(e) => Err(e),
                };
            }
        }
        self.set_last_action(id, PlayerActionType::Idle);
        Ok(false)
    }

    /// Resolves a build request: a wall goes up on the empty cell ahead. Returns whether
    /// it was built; on failure the builder records that it idled.
    pub fn player_build_wall(&mut self, event: &BuildWallEvent) -> (r: bool)
        requires
            old(self)@.wf(),
        ensures
            final(self)@.wf(),
            final(self)@ == after_build(old(self)@, *event),
            r == build_succeeds(old(self)@, *event),
    {
        let id = event.builder_id;
        if id >= self.players.len() {
            return false;
        }
        let pl = match self.players[id] {
            Some(pl) => pl,
            None => {
                return false;
            },
        };
        proof {
            lemma_after_build_wf(self@, *event);
            assert(self@.player_ok(id as int));
        }
        let target: Option<(BoardPosition, OccupantType)> = match self.board.looking_at(
            &pl.board_pos,
            &pl.is_facing,
        ) {
            Some((pos, occ)) => Some((pos, *occ)),
            None => None,
        };
        if let Some((wall_pos, OccupantType::Empty)) = target {
            if self.walls.len() < usize::MAX {
                let wall_id = self.walls.len();
                self.walls.push(crate::board::WallBundle { board_pos: wall_pos });
                self.board.add_occ(wall_pos, OccupantType::Wall(wall_id));
                self.players.set(
                    id,
                    Some(
                        PlayerBundle {
                            board_pos: pl.board_pos,
                            is_facing: pl.is_facing,
                            vitals: pl.vitals,
                            los: pl.los,
                            last_action: PlayerActionType::BuildWall,
                        },
                    ),
                );
                return true;
            }
        }
        self.set_last_action(id, PlayerActionType::Idle);
        false
    }

    /// Resolves a scan request: reports the first occupant along the scanner's line of
    /// sight, if any. The board is left as it was; the scanner records the scan.
    pub fn player_scan_los(&mut self, event: &ScanLOSEvent) -> (r: Option<LOSReportEvent>)
        requires
            old(self)@.wf(),
        ensures
            final(self)@.wf(),
            final(self)@ == after_scan(old(self)@, *event),
            r == match scan_report(old(self)@, *event) {
                Some(o) => Some(LOSReportEvent { scanner_id: event.scanner_id, scanned_type: o }),
                None => None,
            },
    {
        let id = event.scanner_id;
        if id >= self.players.len() {
            return None;
        }
        let pl = match self.players[id] {
            Some(pl) => pl,
            None => {
                return None;
            },
        };
        proof {
            assert(self@.player_ok(id as int));
            lemma_los_tiles_on_board(
                self@.size,
                pl.board_pos,
                event.scanner_facing,
                pl.los.length as int,
            );
        }
        let tiles = get_los_tiles(&pl.board_pos, &event.scanner_facing, &pl.los, &self.board);
        let seen = first_occupant(&self.board, &tiles);
        self.set_last_action(id, PlayerActionType::ScanLOS);
        match seen {
            Some(o) => Some(LOSReportEvent { scanner_id: id, scanned_type: o }),
            None => None,
        }
    }

    /// Charges a player the energy cost of its last action, stopping at zero; a player
    /// left with no energy is dead.
    pub fn update_vitals(&mut self, event: &UpdateVitalsEvent)
        requires
            old(self)@.wf(),
        ensures
            final(self)@.wf(),
            final(self)@ == after_vitals(old(self)@, *event),
    {
        let id = event.hungerer_id;
        if id >= self.players.len() {
            return;
        }
        let pl = match self.players[id] {
            Some(pl) => pl,
            None => {
                return;
            },
        };
        proof {
            lemma_after_vitals_wf(self@, *event);
        }
        let energy = pl.vitals.energy.value.saturating_sub(action_cost(&pl.last_action));
        let status = if energy == 0 {
            PlayerStatus::Dead
        } else {
            pl.vitals.status
        };
        self.players.set(
            id,
            Some(
                PlayerBundle {
                    board_pos: pl.board_pos,
                    is_facing: pl.is_facing,
                    vitals: Vitals { energy: Energy::new(energy), status },
                    los: pl.los,
                    last_action: pl.last_action,
                },
            ),
        );
    }
}

} // verus!
