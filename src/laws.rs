use vstd::prelude::*;

use crate::actions::{
    after_build, after_eat, after_kill, after_move, after_scan, build_succeeds, eat_succeeds,
    kill_succeeds, lemma_after_build_wf, lemma_after_eat_wf, lemma_after_kill_wf,
    lemma_after_move_wf, lemma_after_scan_wf, lemma_after_turn_wf, lemma_after_vitals_wf,
    move_succeeds, scan_report, BuildWallEvent, EatEvent, KillEvent, MoveEvent, ScanLOSEvent,
    TurnEvent, UpdateVitalsEvent,
};
use crate::board::{advance_turn_spec, lemma_wf_frame, SimView};
use crate::common::{ahead, opposite, retreat, BoardPosition};
use crate::players::{FacingDirection, PlayerActionType, PlayerStatus};
use crate::scheduler::{
    apply_builds, apply_eats, apply_kills, apply_moves, apply_scans, apply_turns, apply_vitals,
    lemma_reset_actions_wf, plan, reset_actions, resolve_spec, tick_spec,
};

verus! {

// ---------------------------------------------------------------------------
// The board and the arenas agree after every tick.

proof fn lemma_apply_turns_wf(v: SimView, es: Seq<TurnEvent>)
    requires
        v.wf(),
    ensures
        apply_turns(v, es).wf(),
    decreases es.len(),
{
    if es.len() > 0 {
        lemma_apply_turns_wf(v, es.drop_last());
        lemma_after_turn_wf(apply_turns(v, es.drop_last()), es.last());
    }
}

proof fn lemma_apply_moves_wf(v: SimView, es: Seq<MoveEvent>)
    requires
        v.wf(),
    ensures
        apply_moves(v, es).wf(),
    decreases es.len(),
{
    if es.len() > 0 {
        lemma_apply_moves_wf(v, es.drop_last());
        lemma_after_move_wf(apply_moves(v, es.drop_last()), es.last());
    }
}

proof fn lemma_apply_eats_wf(v: SimView, es: Seq<EatEvent>)
    requires
        v.wf(),
    ensures
        apply_eats(v, es).wf(),
    decreases es.len(),
{
    if es.len() > 0 {
        lemma_apply_eats_wf(v, es.drop_last());
        lemma_after_eat_wf(apply_eats(v, es.drop_last()), es.last());
    }
}

proof fn lemma_apply_kills_wf(v: SimView, es: Seq<KillEvent>)
    requires
        v.wf(),
    ensures
        apply_kills(v, es).wf(),
    decreases es.len(),
{
    if es.len() > 0 {
        lemma_apply_kills_wf(v, es.drop_last());
        lemma_after_kill_wf(apply_kills(v, es.drop_last()), es.last());
    }
}

proof fn lemma_apply_builds_wf(v: SimView, es: Seq<BuildWallEvent>)
    requires
        v.wf(),
    ensures
        apply_builds(v, es).wf(),
    decreases es.len(),
{
    if es.len() > 0 {
        lemma_apply_builds_wf(v, es.drop_last());
        lemma_after_build_wf(apply_builds(v, es.drop_last()), es.last());
    }
}

proof fn lemma_apply_scans_wf(v: SimView, es: Seq<ScanLOSEvent>)
    requires
        v.wf(),
    ensures
        apply_scans(v, es).wf(),
    decreases es.len(),
{
    if es.len() > 0 {
        lemma_apply_scans_wf(v, es.drop_last());
        lemma_after_scan_wf(apply_scans(v, es.drop_last()), es.last());
    }
}

proof fn lemma_apply_vitals_wf(v: SimView, es: Seq<UpdateVitalsEvent>)
    requires
        v.wf(),
    ensures
        apply_vitals(v, es).wf(),
    decreases es.len(),
{
    if es.len() > 0 {
        lemma_apply_vitals_wf(v, es.drop_last());
        lemma_after_vitals_wf(apply_vitals(v, es.drop_last()), es.last());
    }
}

/// Whatever actions are drawn, a tick keeps the board and the entity arenas in one-to-one
/// agreement: each cell records at most one handle, that handle's entity names the cell
/// as its position, and every entity in play is recorded on the cell it names.
pub proof fn tick_keeps_board_consistent(v: SimView, draws: Seq<PlayerActionType>)
    requires
        v.wf(),
    ensures
        tick_spec(v, draws).wf(),
{
    if v.state != crate::board::VisualizerState::GenerationFinished {
        let iv = plan(v, draws, v.players.len());
        let v0 = reset_actions(v);
        lemma_reset_actions_wf(v);
        let v1 = apply_turns(v0, iv.turns);
        lemma_apply_turns_wf(v0, iv.turns);
        let v2 = apply_moves(v1, iv.moves);
        lemma_apply_moves_wf(v1, iv.moves);
        let v3 = apply_eats(v2, iv.eats);
        lemma_apply_eats_wf(v2, iv.eats);
        let v4 = apply_kills(v3, iv.kills);
        lemma_apply_kills_wf(v3, iv.kills);
        let v5 = apply_builds(v4, iv.builds);
        lemma_apply_builds_wf(v4, iv.builds);
        let v6 = apply_scans(v5, iv.scans);
        lemma_apply_scans_wf(v5, iv.scans);
        let v7 = apply_vitals(v6, iv.vitals);
        lemma_apply_vitals_wf(v6, iv.vitals);
        assert(v7 == resolve_spec(v, iv));
        if v7.state != crate::board::VisualizerState::GenerationFinished {
            lemma_wf_frame(v7, advance_turn_spec(v7));
        }
    }
}

// ---------------------------------------------------------------------------
// Scanning is a pure read.

/// A scan changes nothing on the board and no entity but the scanner's last action, and
/// scanning again from the state it leaves behind reports the same thing.
pub proof fn scan_is_pure(v: SimView, e: ScanLOSEvent)
    requires
        v.wf(),
    ensures
        after_scan(v, e).cells == v.cells,
        after_scan(v, e).foods == v.foods,
        after_scan(v, e).walls == v.walls,
        forall|i: int|
            0 <= i < v.players.len() ==> (#[trigger] after_scan(v, e).players[i] is Some <==> v.players[i] is Some),
        forall|i: int|
            0 <= i < v.players.len() && v.players[i] is Some ==> (#[trigger] after_scan(v, e).player(
                i,
            )).board_pos == v.player(i).board_pos,
        scan_report(after_scan(v, e), e) == scan_report(v, e),
{
}

// ---------------------------------------------------------------------------
// Nothing leaves the board at its edge.

/// Whether `p` lies on the edge of the board that direction `d` points at.
pub open spec fn at_outward_edge(size: int, p: BoardPosition, d: FacingDirection) -> bool {
    match d {
        FacingDirection::Up => p.y == size - 1,
        FacingDirection::Down => p.y == 0,
        FacingDirection::Left => p.x == 0,
        FacingDirection::Right => p.x == size - 1,
    }
}

/// A player on the edge of the board, facing off it, finds no cell ahead, whatever the
/// board holds: moving forward, eating, killing and building fail, and none of them
/// writes a cell. A player whose back is to the edge cannot retreat either.
pub proof fn outward_edge_blocks(v: SimView, id: usize, facing: FacingDirection)
    requires
        v.wf(),
        v.has_player(id as int),
    ensures
        at_outward_edge(v.size, v.player(id as int).board_pos, facing) ==> {
            let pos = v.player(id as int).board_pos;
            let mv = MoveEvent {
                mover_id: id,
                mover_pos: pos,
                mover_facing: facing,
                movement_direction: FacingDirection::Up,
            };
            let eat = EatEvent { gorger_id: id, gorger_facing: facing };
            let kill = KillEvent { killer_id: id, killer_facing: facing };
            &&& ahead(v.size, pos, facing) is None
            &&& !move_succeeds(v, mv)
            &&& after_move(v, mv).cells == v.cells
            &&& !eat_succeeds(v, eat)
            &&& after_eat(v, eat).cells == v.cells
            &&& !kill_succeeds(v, kill)
            &&& after_kill(v, kill).cells == v.cells
        },
        at_outward_edge(v.size, v.player(id as int).board_pos, v.player(id as int).is_facing) ==> {
            let build = BuildWallEvent { builder_id: id };
            &&& !build_succeeds(v, build)
            &&& after_build(v, build).cells == v.cells
        },
        at_outward_edge(v.size, v.player(id as int).board_pos, opposite(facing)) ==> {
            let pos = v.player(id as int).board_pos;
            let back = MoveEvent {
                mover_id: id,
                mover_pos: pos,
                mover_facing: facing,
                movement_direction: FacingDirection::Down,
            };
            &&& retreat(v.size, v.cells, pos, facing, v.disengage_length as nat) == pos
            &&& !move_succeeds(v, back)
            &&& after_move(v, back).cells == v.cells
        },
{
}

// ---------------------------------------------------------------------------
// Energy only rises by eating.

/// The energy of player `i`.
pub open spec fn energy_of(w: SimView, i: int) -> u32 {
    w.player(i).vitals.energy.value
}

/// No player enters play between `v` and `w`, and every player still in play has the
/// energy it had.
pub open spec fn keeps_energy(v: SimView, w: SimView) -> bool {
    &&& w.players.len() == v.players.len()
    &&& forall|i: int|
        0 <= i < v.players.len() && #[trigger] w.players[i] is Some ==> v.players[i] is Some
            && energy_of(w, i) == energy_of(v, i)
}

/// Between `v` and `w` the last action of a player in play changed only where `acts` holds.
pub open spec fn keeps_actions_except(v: SimView, w: SimView, acts: spec_fn(int) -> bool) -> bool {
    forall|i: int|
        0 <= i < v.players.len() && #[trigger] w.players[i] is Some && !acts(i)
            ==> w.player(i).last_action == v.player(i).last_action
}

proof fn lemma_turns_keep_energy(v: SimView, es: Seq<TurnEvent>)
    ensures
        keeps_energy(v, apply_turns(v, es)),
    decreases es.len(),
{
    if es.len() > 0 {
        lemma_turns_keep_energy(v, es.drop_last());
    }
}

proof fn lemma_moves_keep_energy(v: SimView, es: Seq<MoveEvent>)
    ensures
        keeps_energy(v, apply_moves(v, es)),
    decreases es.len(),
{
    if es.len() > 0 {
        lemma_moves_keep_energy(v, es.drop_last());
    }
}

proof fn lemma_after_kill_frame(u: SimView, e: KillEvent)
    requires
        u.wf(),
    ensures
        after_kill(u, e).players.len() == u.players.len(),
        forall|i: int|
            0 <= i < u.players.len() && #[trigger] after_kill(u, e).players[i] is Some
                ==> u.players[i] is Some && after_kill(u, e).player(i).vitals == u.player(i).vitals
                && (i != e.killer_id ==> after_kill(u, e).player(i).last_action == u.player(
                i,
            ).last_action),
{
    let id = e.killer_id as int;
    if u.has_player(id) && kill_succeeds(u, e) {
        let t = crate::actions::kill_target(u, e)->Some_0;
        let victim = u.occ(t)->Player_0 as int;
        assert(u.cell_ok(t));
        assert(u.player_ok(id));
        let c = crate::actions::kill_cleared(u, e);
        assert(c.players == u.players.update(victim, None).update(
            id,
            Some(crate::board::PlayerBundle { last_action: PlayerActionType::Kill, ..u.player(id) }),
        ));
        assert(after_kill(u, e).players == c.players);
    }
}

proof fn lemma_kills_keep(v: SimView, es: Seq<KillEvent>)
    requires
        v.wf(),
    ensures
        keeps_energy(v, apply_kills(v, es)),
        keeps_actions_except(
            v,
            apply_kills(v, es),
            |i: int| exists|k: int| 0 <= k < es.len() && es[k].killer_id == i,
        ),
    decreases es.len(),
{
    if es.len() > 0 {
        let prev = es.drop_last();
        lemma_kills_keep(v, prev);
        lemma_apply_kills_wf(v, prev);
        lemma_after_kill_frame(apply_kills(v, prev), es.last());
        let w = apply_kills(v, es);
        assert forall|i: int|
            0 <= i < v.players.len() && #[trigger] w.players[i] is Some && !(exists|k: int|
                0 <= k < es.len() && es[k].killer_id == i) implies w.player(i).last_action
            == v.player(i).last_action by {
            assert(es[es.len() - 1].killer_id != i);
            assert(!(exists|k: int| 0 <= k < prev.len() && prev[k].killer_id == i)) by {
                if exists|k: int| 0 <= k < prev.len() && prev[k].killer_id == i {
                    let k = choose|k: int| 0 <= k < prev.len() && prev[k].killer_id == i;
                    assert(es[k].killer_id == i);
                }
            }
        }
    }
}

proof fn lemma_builds_keep(v: SimView, es: Seq<BuildWallEvent>)
    ensures
        keeps_energy(v, apply_builds(v, es)),
        keeps_actions_except(
            v,
            apply_builds(v, es),
            |i: int| exists|k: int| 0 <= k < es.len() && es[k].builder_id == i,
        ),
    decreases es.len(),
{
    if es.len() > 0 {
        let prev = es.drop_last();
        lemma_builds_keep(v, prev);
        let w = apply_builds(v, es);
        assert forall|i: int|
            0 <= i < v.players.len() && #[trigger] w.players[i] is Some && !(exists|k: int|
                0 <= k < es.len() && es[k].builder_id == i) implies w.player(i).last_action
            == v.player(i).last_action by {
            assert(es[es.len() - 1].builder_id != i);
            assert(!(exists|k: int| 0 <= k < prev.len() && prev[k].builder_id == i)) by {
                if exists|k: int| 0 <= k < prev.len() && prev[k].builder_id == i {
                    let k = choose|k: int| 0 <= k < prev.len() && prev[k].builder_id == i;
                    assert(es[k].builder_id == i);
                }
            }
        }
    }
}

proof fn lemma_scans_keep(v: SimView, es: Seq<ScanLOSEvent>)
    ensures
        keeps_energy(v, apply_scans(v, es)),
        keeps_actions_except(
            v,
            apply_scans(v, es),
            |i: int| exists|k: int| 0 <= k < es.len() && es[k].scanner_id == i,
        ),
    decreases es.len(),
{
    if es.len() > 0 {
        let prev = es.drop_last();
        lemma_scans_keep(v, prev);
        let w = apply_scans(v, es);
        assert forall|i: int|
            0 <= i < v.players.len() && #[trigger] w.players[i] is Some && !(exists|k: int|
                0 <= k < es.len() && es[k].scanner_id == i) implies w.player(i).last_action
            == v.player(i).last_action by {
            assert(es[es.len() - 1].scanner_id != i);
            assert(!(exists|k: int| 0 <= k < prev.len() && prev[k].scanner_id == i)) by {
                if exists|k: int| 0 <= k < prev.len() && prev[k].scanner_id == i {
                    let k = choose|k: int| 0 <= k < prev.len() && prev[k].scanner_id == i;
                    assert(es[k].scanner_id == i);
                }
            }
        }
    }
}

proof fn lemma_vitals_lower_energy(v: SimView, es: Seq<UpdateVitalsEvent>)
    ensures
        apply_vitals(v, es).players.len() == v.players.len(),
        forall|i: int|
            0 <= i < v.players.len() && #[trigger] apply_vitals(v, es).players[i] is Some
                ==> v.players[i] is Some && energy_of(apply_vitals(v, es), i) <= energy_of(v, i)
                && apply_vitals(v, es).player(i).last_action == v.player(i).last_action,
    decreases es.len(),
{
    if es.len() > 0 {
        lemma_vitals_lower_energy(v, es.drop_last());
    }
}

/// In a run of eat requests by distinct players, a player whose energy rose made one of
/// the requests and ate.
proof fn lemma_eats_raise_only_eaters(v: SimView, es: Seq<EatEvent>)
    requires
        forall|j: int, k: int| 0 <= j < k < es.len() ==> es[j].gorger_id != es[k].gorger_id,
    ensures
        apply_eats(v, es).players.len() == v.players.len(),
        forall|i: int|
            0 <= i < v.players.len() && #[trigger] apply_eats(v, es).players[i] is Some
                ==> v.players[i] is Some && (energy_of(apply_eats(v, es), i) > energy_of(v, i)
                ==> apply_eats(v, es).player(i).last_action == PlayerActionType::Eat && exists|
                k: int,
            | 0 <= k < es.len() && es[k].gorger_id == i),
    decreases es.len(),
{
    if es.len() > 0 {
        let prev = es.drop_last();
        lemma_eats_raise_only_eaters(v, prev);
        let u = apply_eats(v, prev);
        let w = apply_eats(v, es);
        let a = es.last().gorger_id as int;
        assert forall|i: int|
            0 <= i < v.players.len() && #[trigger] w.players[i] is Some implies v.players[i] is Some
            && (energy_of(w, i) > energy_of(v, i) ==> w.player(i).last_action
            == PlayerActionType::Eat && exists|k: int| 0 <= k < es.len() && es[k].gorger_id == i) by {
            assert(u.players[i] is Some);
            if energy_of(w, i) > energy_of(v, i) {
                if i == a {
                    assert(es[es.len() - 1].gorger_id == i);
                    if energy_of(u, i) > energy_of(v, i) {
                        let k = choose|k: int| 0 <= k < prev.len() && prev[k].gorger_id == i;
                        assert(es[k].gorger_id == es[es.len() - 1].gorger_id);
                    }
                } else {
                    let k = choose|k: int| 0 <= k < prev.len() && prev[k].gorger_id == i;
                    assert(es[k].gorger_id == i);
                }
            }
        }
    }
}

/// How the intents of a tick are drawn up: each list holds the requests of players that
/// drew its kind, and eat requests name distinct players.
proof fn lemma_plan_kinds(v: SimView, draws: Seq<PlayerActionType>, n: nat)
    requires
        n <= draws.len(),
        n <= v.players.len(),
        v.players.len() <= usize::MAX,
    ensures
        ({
            let iv = plan(v, draws, n);
            &&& forall|k: int|
                0 <= k < iv.eats.len() ==> (#[trigger] iv.eats[k]).gorger_id < n && draws[iv.eats[k].gorger_id as int]
                    == PlayerActionType::Eat
            &&& forall|j: int, k: int|
                0 <= j < k < iv.eats.len() ==> iv.eats[j].gorger_id < iv.eats[k].gorger_id
            &&& forall|k: int|
                0 <= k < iv.kills.len() ==> draws[(#[trigger] iv.kills[k]).killer_id as int]
                    == PlayerActionType::Kill
            &&& forall|k: int|
                0 <= k < iv.builds.len() ==> draws[(#[trigger] iv.builds[k]).builder_id as int]
                    == PlayerActionType::BuildWall
            &&& forall|k: int|
                0 <= k < iv.scans.len() ==> draws[(#[trigger] iv.scans[k]).scanner_id as int]
                    == PlayerActionType::ScanLOS
        }),
    decreases n,
{
    if n > 0 {
        lemma_plan_kinds(v, draws, (n - 1) as nat);
    }
}

/// Over a tick, a player's energy goes up only if that player ate in it: whenever a
/// player still in play ends the tick with more energy than it started with, its last
/// action is a successful eat. (Energy is a `u32`, so it is never negative.)
pub proof fn energy_rises_only_by_eating(v: SimView, draws: Seq<PlayerActionType>, i: int)
    requires
        v.wf(),
        draws.len() == v.players.len(),
        0 <= i < v.players.len(),
        tick_spec(v, draws).players[i] is Some,
    ensures
        v.players[i] is Some,
        energy_of(tick_spec(v, draws), i) > energy_of(v, i) ==> tick_spec(v, draws).player(
            i,
        ).last_action == PlayerActionType::Eat,
{
    if v.state != crate::board::VisualizerState::GenerationFinished {
        let iv = plan(v, draws, v.players.len());
        lemma_plan_kinds(v, draws, v.players.len());
        let v0 = reset_actions(v);
        let v1 = apply_turns(v0, iv.turns);
        lemma_turns_keep_energy(v0, iv.turns);
        let v2 = apply_moves(v1, iv.moves);
        lemma_moves_keep_energy(v1, iv.moves);
        let v3 = apply_eats(v2, iv.eats);
        assert forall|j: int, k: int| 0 <= j < k < iv.eats.len() implies iv.eats[j].gorger_id
            != iv.eats[k].gorger_id by {}
        lemma_eats_raise_only_eaters(v2, iv.eats);
        let v4 = apply_kills(v3, iv.kills);
        lemma_reset_actions_wf(v);
        lemma_apply_turns_wf(v0, iv.turns);
        lemma_apply_moves_wf(v1, iv.moves);
        lemma_apply_eats_wf(v2, iv.eats);
        lemma_kills_keep(v3, iv.kills);
        let v5 = apply_builds(v4, iv.builds);
        lemma_builds_keep(v4, iv.builds);
        let v6 = apply_scans(v5, iv.scans);
        lemma_scans_keep(v5, iv.scans);
        let v7 = apply_vitals(v6, iv.vitals);
        lemma_vitals_lower_energy(v6, iv.vitals);
        assert(v7 == resolve_spec(v, iv));
        let f = tick_spec(v, draws);
        assert(f.players == v7.players);
        assert(v6.players[i] is Some);
        assert(v5.players[i] is Some);
        assert(v4.players[i] is Some);
        assert(v3.players[i] is Some);
        assert(v2.players[i] is Some);
        assert(v1.players[i] is Some);
        assert(v0.players[i] is Some);
        if energy_of(f, i) > energy_of(v, i) {
            assert(energy_of(v3, i) > energy_of(v2, i));
            let k = choose|k: int| 0 <= k < iv.eats.len() && iv.eats[k].gorger_id == i;
            assert(draws[i] == PlayerActionType::Eat);
            assert(!(exists|k: int| 0 <= k < iv.kills.len() && iv.kills[k].killer_id == i)) by {
                if exists|k: int| 0 <= k < iv.kills.len() && iv.kills[k].killer_id == i {
                    let k = choose|k: int| 0 <= k < iv.kills.len() && iv.kills[k].killer_id == i;
                    assert(draws[iv.kills[k].killer_id as int] == PlayerActionType::Kill);
                }
            }
            assert(!(exists|k: int| 0 <= k < iv.builds.len() && iv.builds[k].builder_id == i)) by {
                if exists|k: int| 0 <= k < iv.builds.len() && iv.builds[k].builder_id == i {
                    let k = choose|k: int| 0 <= k < iv.builds.len() && iv.builds[k].builder_id == i;
                    assert(draws[iv.builds[k].builder_id as int] == PlayerActionType::BuildWall);
                }
            }
            assert(!(exists|k: int| 0 <= k < iv.scans.len() && iv.scans[k].scanner_id == i)) by {
                if exists|k: int| 0 <= k < iv.scans.len() && iv.scans[k].scanner_id == i {
                    let k = choose|k: int| 0 <= k < iv.scans.len() && iv.scans[k].scanner_id == i;
                    assert(draws[iv.scans[k].scanner_id as int] == PlayerActionType::ScanLOS);
                }
            }
            assert(v6.player(i).last_action == PlayerActionType::Eat);
        }
    }
}

// ---------------------------------------------------------------------------
// The dead stay out of play.

/// Between `v` and `w` the scheduler is untouched, no player enters play, and a player
/// that was dead is still dead.
pub open spec fn keeps_dead(v: SimView, w: SimView) -> bool {
    &&& w.turn == v.turn
    &&& w.state == v.state
    &&& w.turns_per_gen == v.turns_per_gen
    &&& w.players.len() == v.players.len()
    &&& forall|i: int|
        0 <= i < v.players.len() && #[trigger] w.players[i] is Some ==> v.players[i] is Some && (
        v.player(i).vitals.status == PlayerStatus::Dead ==> w.player(i).vitals.status
            == PlayerStatus::Dead)
}

proof fn lemma_turns_keep_dead(v: SimView, es: Seq<TurnEvent>)
    ensures
        keeps_dead(v, apply_turns(v, es)),
    decreases es.len(),
{
    if es.len() > 0 {
        lemma_turns_keep_dead(v, es.drop_last());
    }
}

proof fn lemma_moves_keep_dead(v: SimView, es: Seq<MoveEvent>)
    ensures
        keeps_dead(v, apply_moves(v, es)),
    decreases es.len(),
{
    if es.len() > 0 {
        lemma_moves_keep_dead(v, es.drop_last());
    }
}

proof fn lemma_eats_keep_dead(v: SimView, es: Seq<EatEvent>)
    ensures
        keeps_dead(v, apply_eats(v, es)),
    decreases es.len(),
{
    if es.len() > 0 {
        lemma_eats_keep_dead(v, es.drop_last());
    }
}

proof fn lemma_kills_keep_dead(v: SimView, es: Seq<KillEvent>)
    requires
        v.wf(),
    ensures
        keeps_dead(v, apply_kills(v, es)),
    decreases es.len(),
{
    if es.len() > 0 {
        lemma_kills_keep_dead(v, es.drop_last());
        lemma_apply_kills_wf(v, es.drop_last());
        lemma_after_kill_frame(apply_kills(v, es.drop_last()), es.last());
    }
}

proof fn lemma_builds_keep_dead(v: SimView, es: Seq<BuildWallEvent>)
    ensures
        keeps_dead(v, apply_builds(v, es)),
    decreases es.len(),
{
    if es.len() > 0 {
        lemma_builds_keep_dead(v, es.drop_last());
    }
}

proof fn lemma_scans_keep_dead(v: SimView, es: Seq<ScanLOSEvent>)
    ensures
        keeps_dead(v, apply_scans(v, es)),
    decreases es.len(),
{
    if es.len() > 0 {
        lemma_scans_keep_dead(v, es.drop_last());
    }
}

proof fn lemma_vitals_keep_dead(v: SimView, es: Seq<UpdateVitalsEvent>)
    ensures
        keeps_dead(v, apply_vitals(v, es)),
    decreases es.len(),
{
    if es.len() > 0 {
        lemma_vitals_keep_dead(v, es.drop_last());
    }
}

/// Every request that the intents of a tick hold names a player that is in play and alive.
proof fn lemma_plan_names_living(v: SimView, draws: Seq<PlayerActionType>, n: nat)
    requires
        n <= draws.len(),
        n <= v.players.len(),
        v.players.len() <= usize::MAX,
    ensures
        ({
            let iv = plan(v, draws, n);
            &&& forall|k: int|
                0 <= k < iv.turns.len() ==> v.has_player((#[trigger] iv.turns[k]).turner_id as int)
                    && v.player(iv.turns[k].turner_id as int).vitals.status == PlayerStatus::Alive
            &&& forall|k: int|
                0 <= k < iv.moves.len() ==> v.has_player((#[trigger] iv.moves[k]).mover_id as int)
                    && v.player(iv.moves[k].mover_id as int).vitals.status == PlayerStatus::Alive
            &&& forall|k: int|
                0 <= k < iv.eats.len() ==> v.has_player((#[trigger] iv.eats[k]).gorger_id as int)
                    && v.player(iv.eats[k].gorger_id as int).vitals.status == PlayerStatus::Alive
            &&& forall|k: int|
                0 <= k < iv.kills.len() ==> v.has_player((#[trigger] iv.kills[k]).killer_id as int)
                    && v.player(iv.kills[k].killer_id as int).vitals.status == PlayerStatus::Alive
            &&& forall|k: int|
                0 <= k < iv.builds.len() ==> v.has_player((#[trigger] iv.builds[k]).builder_id as int)
                    && v.player(iv.builds[k].builder_id as int).vitals.status == PlayerStatus::Alive
            &&& forall|k: int|
                0 <= k < iv.scans.len() ==> v.has_player((#[trigger] iv.scans[k]).scanner_id as int)
                    && v.player(iv.scans[k].scanner_id as int).vitals.status == PlayerStatus::Alive
            &&& forall|k: int|
                0 <= k < iv.vitals.len() ==> v.has_player((#[trigger] iv.vitals[k]).hungerer_id as int)
                    && v.player(iv.vitals[k].hungerer_id as int).vitals.status == PlayerStatus::Alive
        }),
    decreases n,
{
    if n > 0 {
        lemma_plan_names_living(v, draws, (n - 1) as nat);
    }
}

/// A player that is dead when a tick starts asks for nothing in it, no action and no
/// vitals update, and is still dead when the tick ends; so it is skipped in every later
/// tick too.
pub proof fn dead_players_stay_out(v: SimView, draws: Seq<PlayerActionType>, i: int)
    requires
        v.wf(),
        draws.len() == v.players.len(),
        0 <= i < v.players.len(),
        v.players[i] is Some,
        v.player(i).vitals.status == PlayerStatus::Dead,
    ensures
        ({
            let iv = plan(v, draws, v.players.len());
            &&& forall|k: int| 0 <= k < iv.turns.len() ==> (#[trigger] iv.turns[k]).turner_id != i
            &&& forall|k: int| 0 <= k < iv.moves.len() ==> (#[trigger] iv.moves[k]).mover_id != i
            &&& forall|k: int| 0 <= k < iv.eats.len() ==> (#[trigger] iv.eats[k]).gorger_id != i
            &&& forall|k: int| 0 <= k < iv.kills.len() ==> (#[trigger] iv.kills[k]).killer_id != i
            &&& forall|k: int| 0 <= k < iv.builds.len() ==> (#[trigger] iv.builds[k]).builder_id != i
            &&& forall|k: int| 0 <= k < iv.scans.len() ==> (#[trigger] iv.scans[k]).scanner_id != i
            &&& forall|k: int| 0 <= k < iv.vitals.len() ==> (#[trigger] iv.vitals[k]).hungerer_id != i
        }),
        tick_spec(v, draws).players[i] is Some ==> tick_spec(v, draws).player(i).vitals.status
            == PlayerStatus::Dead,
{
    lemma_plan_names_living(v, draws, v.players.len());
    if v.state != crate::board::VisualizerState::GenerationFinished {
        let iv = plan(v, draws, v.players.len());
        let v0 = reset_actions(v);
        lemma_reset_actions_wf(v);
        let v1 = apply_turns(v0, iv.turns);
        lemma_turns_keep_dead(v0, iv.turns);
        lemma_apply_turns_wf(v0, iv.turns);
        let v2 = apply_moves(v1, iv.moves);
        lemma_moves_keep_dead(v1, iv.moves);
        lemma_apply_moves_wf(v1, iv.moves);
        let v3 = apply_eats(v2, iv.eats);
        lemma_eats_keep_dead(v2, iv.eats);
        lemma_apply_eats_wf(v2, iv.eats);
        let v4 = apply_kills(v3, iv.kills);
        lemma_kills_keep_dead(v3, iv.kills);
        let v5 = apply_builds(v4, iv.builds);
        lemma_builds_keep_dead(v4, iv.builds);
        let v6 = apply_scans(v5, iv.scans);
        lemma_scans_keep_dead(v5, iv.scans);
        let v7 = apply_vitals(v6, iv.vitals);
        lemma_vitals_keep_dead(v6, iv.vitals);
        assert(v7 == resolve_spec(v, iv));
        let f = tick_spec(v, draws);
        assert(f.players == v7.players);
        if f.players[i] is Some {
            assert(v6.players[i] is Some);
            assert(v5.players[i] is Some);
            assert(v4.players[i] is Some);
            assert(v3.players[i] is Some);
            assert(v2.players[i] is Some);
            assert(v1.players[i] is Some);
            assert(v0.players[i] is Some);
        }
    }
}

// ---------------------------------------------------------------------------
// The generation ends once.

/// A generation ends exactly once: a tick of a running generation moves the counter on by
/// one and finishes the generation exactly when the counter passes the generation length,
/// and every tick of a finished generation leaves it as it is.
pub proof fn generation_ends_once(v: SimView, draws: Seq<PlayerActionType>)
    requires
        v.wf(),
    ensures
        v.state == crate::board::VisualizerState::GenerationFinished ==> tick_spec(v, draws) == v,
        v.state == crate::board::VisualizerState::SimulationRunning ==> {
            &&& tick_spec(v, draws).turn == v.turn + 1
            &&& (tick_spec(v, draws).state == crate::board::VisualizerState::GenerationFinished
                <==> v.turn + 1 > v.turns_per_gen)
        },
{
    if v.state != crate::board::VisualizerState::GenerationFinished {
        let iv = plan(v, draws, v.players.len());
        let v0 = reset_actions(v);
        lemma_reset_actions_wf(v);
        let v1 = apply_turns(v0, iv.turns);
        lemma_turns_keep_dead(v0, iv.turns);
        lemma_apply_turns_wf(v0, iv.turns);
        let v2 = apply_moves(v1, iv.moves);
        lemma_moves_keep_dead(v1, iv.moves);
        lemma_apply_moves_wf(v1, iv.moves);
        let v3 = apply_eats(v2, iv.eats);
        lemma_eats_keep_dead(v2, iv.eats);
        lemma_apply_eats_wf(v2, iv.eats);
        let v4 = apply_kills(v3, iv.kills);
        lemma_kills_keep_dead(v3, iv.kills);
        let v5 = apply_builds(v4, iv.builds);
        lemma_builds_keep_dead(v4, iv.builds);
        let v6 = apply_scans(v5, iv.scans);
        lemma_scans_keep_dead(v5, iv.scans);
        let v7 = apply_vitals(v6, iv.vitals);
        lemma_vitals_keep_dead(v6, iv.vitals);
        assert(v7 == resolve_spec(v, iv));
    }
}

} // verus!
