use vstd::prelude::*;

use crate::actions::{
    after_build, after_eat, after_kill, after_move, after_scan, after_turn, after_vitals,
    scan_report, BuildWallEvent, EatEvent, KillEvent, LOSReportEvent, MoveEvent, ScanLOSEvent,
    TurnEvent, UpdateVitalsEvent,
};
use crate::board::{
    advance_turn_spec, PlayerBundle, SimView, Simulation, SurvivalStats, VisualizerState,
};
use crate::common::BoardPosition;
use crate::actions::is_move_command;
use crate::players::{is_turn_command, is_valid_action, FacingDirection, PlayerActionType, PlayerStatus};

verus! {

// ---------------------------------------------------------------------------
// Running a phase: the events of one kind, resolved in order.

pub open spec fn apply_turns(v: SimView, es: Seq<TurnEvent>) -> SimView
    decreases es.len(),
{
    if es.len() == 0 {
        v
    } else {
        after_turn(apply_turns(v, es.drop_last()), es.last())
    }
}

pub open spec fn apply_moves(v: SimView, es: Seq<MoveEvent>) -> SimView
    decreases es.len(),
{
    if es.len() == 0 {
        v
    } else {
        after_move(apply_moves(v, es.drop_last()), es.last())
    }
}

pub open spec fn apply_eats(v: SimView, es: Seq<EatEvent>) -> SimView
    decreases es.len(),
{
    if es.len() == 0 {
        v
    } else {
        after_eat(apply_eats(v, es.drop_last()), es.last())
    }
}

pub open spec fn apply_kills(v: SimView, es: Seq<KillEvent>) -> SimView
    decreases es.len(),
{
    if es.len() == 0 {
        v
    } else {
        after_kill(apply_kills(v, es.drop_last()), es.last())
    }
}

pub open spec fn apply_builds(v: SimView, es: Seq<BuildWallEvent>) -> SimView
    decreases es.len(),
{
    if es.len() == 0 {
        v
    } else {
        after_build(apply_builds(v, es.drop_last()), es.last())
    }
}

pub open spec fn apply_scans(v: SimView, es: Seq<ScanLOSEvent>) -> SimView
    decreases es.len(),
{
    if es.len() == 0 {
        v
    } else {
        after_scan(apply_scans(v, es.drop_last()), es.last())
    }
}

/// The reports of a run of scans, in order; a scan that sees nothing reports nothing.
pub open spec fn scan_reports(v: SimView, es: Seq<ScanLOSEvent>) -> Seq<LOSReportEvent>
    decreases es.len(),
{
    if es.len() == 0 {
        Seq::empty()
    } else {
        let prev = scan_reports(v, es.drop_last());
        match scan_report(apply_scans(v, es.drop_last()), es.last()) {
            Some(o) => prev.push(LOSReportEvent { scanner_id: es.last().scanner_id, scanned_type: o }),
            None => prev,
        }
    }
}

pub open spec fn apply_vitals(v: SimView, es: Seq<UpdateVitalsEvent>) -> SimView
    decreases es.len(),
{
    if es.len() == 0 {
        v
    } else {
        after_vitals(apply_vitals(v, es.drop_last()), es.last())
    }
}

/// Every player in play starts the tick idle; the action it takes overwrites that.
pub open spec fn reset_actions(v: SimView) -> SimView {
    SimView {
        players: Seq::new(
            v.players.len(),
            |i: int|
                match v.players[i] {
                    Some(pl) => Some(PlayerBundle { last_action: PlayerActionType::Idle, ..pl }),
                    None => None,
                },
        ),
        ..v
    }
}

// ---------------------------------------------------------------------------
// Planning: one intent per living player.

/// The requests of one tick, sorted by kind; each list is in player order.
pub struct PlayerIntents {
    pub turns: Vec<TurnEvent>,
    pub moves: Vec<MoveEvent>,
    pub eats: Vec<EatEvent>,
    pub kills: Vec<KillEvent>,
    pub builds: Vec<BuildWallEvent>,
    pub scans: Vec<ScanLOSEvent>,
    pub vitals: Vec<UpdateVitalsEvent>,
}

/// The model of [`PlayerIntents`].
pub struct IntentsView {
    pub turns: Seq<TurnEvent>,
    pub moves: Seq<MoveEvent>,
    pub eats: Seq<EatEvent>,
    pub kills: Seq<KillEvent>,
    pub builds: Seq<BuildWallEvent>,
    pub scans: Seq<ScanLOSEvent>,
    pub vitals: Seq<UpdateVitalsEvent>,
}

impl View for PlayerIntents {
    type V = IntentsView;

    open spec fn view(&self) -> IntentsView {
        IntentsView {
            turns: self.turns@,
            moves: self.moves@,
            eats: self.eats@,
            kills: self.kills@,
            builds: self.builds@,
            scans: self.scans@,
            vitals: self.vitals@,
        }
    }
}

impl IntentsView {
    /// Every turn request is to the left or right, every move forward or backward.
    pub open spec fn commands_ok(self) -> bool {
        &&& forall|k: int|
            0 <= k < self.turns.len() ==> is_turn_command(#[trigger] self.turns[k].turn_direction)
        &&& forall|k: int|
            0 <= k < self.moves.len() ==> is_move_command(
                #[trigger] self.moves[k].movement_direction,
            )
    }
}

/// Drawn actions that are all valid give well-formed requests.
pub proof fn lemma_plan_commands(v: SimView, draws: Seq<PlayerActionType>, n: nat)
    requires
        n <= draws.len(),
        forall|i: int| 0 <= i < draws.len() ==> is_valid_action(#[trigger] draws[i]),
    ensures
        plan(v, draws, n).commands_ok(),
    decreases n,
{
    if n > 0 {
        lemma_plan_commands(v, draws, (n - 1) as nat);
        assert(is_valid_action(draws[n - 1]));
    }
}

/// The intents with an action of player `i` added; idling adds only the vitals request.
pub open spec fn add_intent(iv: IntentsView, i: usize, pl: PlayerBundle, a: PlayerActionType) -> IntentsView {
    let iv = IntentsView { vitals: iv.vitals.push(UpdateVitalsEvent { hungerer_id: i }), ..iv };
    match a {
        PlayerActionType::Idle => iv,
        PlayerActionType::MoveForward => IntentsView {
            moves: iv.moves.push(
                MoveEvent {
                    mover_id: i,
                    mover_pos: pl.board_pos,
                    mover_facing: pl.is_facing,
                    movement_direction: FacingDirection::Up,
                },
            ),
            ..iv
        },
        PlayerActionType::MoveBackwards => IntentsView {
            moves: iv.moves.push(
                MoveEvent {
                    mover_id: i,
                    mover_pos: pl.board_pos,
                    mover_facing: pl.is_facing,
                    movement_direction: FacingDirection::Down,
                },
            ),
            ..iv
        },
        PlayerActionType::Turn(d) => IntentsView {
            turns: iv.turns.push(
                TurnEvent { turner_id: i, turner_facing: pl.is_facing, turn_direction: d },
            ),
            ..iv
        },
        PlayerActionType::Eat => IntentsView {
            eats: iv.eats.push(EatEvent { gorger_id: i, gorger_facing: pl.is_facing }),
            ..iv
        },
        PlayerActionType::Kill => IntentsView {
            kills: iv.kills.push(KillEvent { killer_id: i, killer_facing: pl.is_facing }),
            ..iv
        },
        PlayerActionType::BuildWall => IntentsView {
            builds: iv.builds.push(BuildWallEvent { builder_id: i }),
            ..iv
        },
        PlayerActionType::ScanLOS => IntentsView {
            scans: iv.scans.push(ScanLOSEvent { scanner_id: i, scanner_facing: pl.is_facing }),
            ..iv
        },
    }
}

/// The intents of the first `n` player slots: a player in play and alive asks for the
/// action drawn for it; others ask for nothing.
pub open spec fn plan(v: SimView, draws: Seq<PlayerActionType>, n: nat) -> IntentsView
    decreases n,
{
    if n == 0 {
        IntentsView {
            turns: Seq::empty(),
            moves: Seq::empty(),
            eats: Seq::empty(),
            kills: Seq::empty(),
            builds: Seq::empty(),
            scans: Seq::empty(),
            vitals: Seq::empty(),
        }
    } else {
        let i = (n - 1) as int;
        let prev = plan(v, draws, (n - 1) as nat);
        if v.has_player(i) && v.player(i).vitals.status == PlayerStatus::Alive {
            add_intent(prev, i as usize, v.player(i), draws[i])
        } else {
            prev
        }
    }
}

/// The state before the scans of a tick run.
pub open spec fn before_scans(v: SimView, iv: IntentsView) -> SimView {
    apply_builds(
        apply_kills(apply_eats(apply_moves(apply_turns(reset_actions(v), iv.turns), iv.moves), iv.eats), iv.kills),
        iv.builds,
    )
}

/// The state after the intents of a tick are resolved, in the fixed order: turns, moves,
/// eating, kills, walls, scans, vitals.
pub open spec fn resolve_spec(v: SimView, iv: IntentsView) -> SimView {
    apply_vitals(apply_scans(before_scans(v, iv), iv.scans), iv.vitals)
}

/// The state after one tick with the given draws; a finished generation stays as it is.
pub open spec fn tick_spec(v: SimView, draws: Seq<PlayerActionType>) -> SimView {
    if v.state == VisualizerState::GenerationFinished {
        v
    } else {
        advance_turn_spec(resolve_spec(v, plan(v, draws, v.players.len())))
    }
}

/// What a tick reports: the scans' sightings and, on the tick that ends the
/// generation, the survival statistics.
pub struct TickReport {
    pub reports: Vec<LOSReportEvent>,
    pub finished: Option<SurvivalStats>,
}

pub proof fn lemma_reset_actions_wf(v: SimView)
    requires
        v.wf(),
    ensures
        reset_actions(v).wf(),
{
    let w = reset_actions(v);
    assert forall|p: BoardPosition| crate::common::pos_in(w.size, p) implies #[trigger] w.cell_ok(
        p,
    ) by {
        assert(v.cell_ok(p));
    }
    assert forall|i: int| 0 <= i < w.players.len() implies #[trigger] w.player_ok(i) by {
        assert(v.player_ok(i));
    }
    assert forall|i: int| 0 <= i < w.foods.len() implies #[trigger] w.food_ok(i) by {
        assert(v.food_ok(i));
    }
    assert forall|i: int| 0 <= i < w.walls.len() implies #[trigger] w.wall_ok(i) by {
        assert(v.wall_ok(i));
    }
}

impl Simulation {
    /// Resolves the turn requests in order.
    pub fn player_turn_listener(&mut self, events: &Vec<TurnEvent>)
        requires
            old(self)@.wf(),
            forall|k: int| 0 <= k < events@.len() ==> is_turn_command(#[trigger] events@[k].turn_direction),
        ensures
            final(self)@.wf(),
            final(self)@.state == old(self)@.state,
            final(self)@ == apply_turns(old(self)@, events@),
    {
        let mut k: usize = 0;
        while k < events.len()
            invariant
                k <= events@.len(),
                self@.wf(),
                self@.state == old(self)@.state,
                self@ == apply_turns(old(self)@, events@.take(k as int)),
                forall|j: int|
                    0 <= j < events@.len() ==> is_turn_command(#[trigger] events@[j].turn_direction),
            decreases events@.len() - k,
        {
            assert(events@.take(k + 1).drop_last() =~= events@.take(k as int));
            assert(is_turn_command(events@[k as int].turn_direction));
            let _ = self.player_turn(&events[k]);
            k = k + 1;
        }
        assert(events@.take(events@.len() as int) =~= events@);
    }

    /// Resolves the move requests in order.
    pub fn player_move_listener(&mut self, events: &Vec<MoveEvent>)
        requires
            old(self)@.wf(),
            forall|k: int| 0 <= k < events@.len() ==> is_move_command(#[trigger] events@[k].movement_direction),
        ensures
            final(self)@.wf(),
            final(self)@.state == old(self)@.state,
            final(self)@ == apply_moves(old(self)@, events@),
    {
        let mut k: usize = 0;
        while k < events.len()
            invariant
                k <= events@.len(),
                self@.wf(),
                self@.state == old(self)@.state,
                self@ == apply_moves(old(self)@, events@.take(k as int)),
                forall|j: int|
                    0 <= j < events@.len() ==> is_move_command(
                        #[trigger] events@[j].movement_direction,
                    ),
            decreases events@.len() - k,
        {
            assert(events@.take(k + 1).drop_last() =~= events@.take(k as int));
            assert(is_move_command(events@[k as int].movement_direction));
            let _ = self.move_player(&events[k]);
            k = k + 1;
        }
        assert(events@.take(events@.len() as int) =~= events@);
    }

    /// Resolves the eat requests in order.
    pub fn player_eat_listener(&mut self, events: &Vec<EatEvent>)
        requires
            old(self)@.wf(),
        ensures
            final(self)@.wf(),
            final(self)@.state == old(self)@.state,
            final(self)@ == apply_eats(old(self)@, events@),
    {
        let mut k: usize = 0;
        while k < events.len()
            invariant
                k <= events@.len(),
                self@.wf(),
                self@.state == old(self)@.state,
                self@ == apply_eats(old(self)@, events@.take(k as int)),
            decreases events@.len() - k,
        {
            assert(events@.take(k + 1).drop_last() =~= events@.take(k as int));
            let _ = self.player_eat(&events[k]);
            k = k + 1;
        }
        assert(events@.take(events@.len() as int) =~= events@);
    }

    /// Resolves the kill requests in order.
    pub fn player_kill_listener(&mut self, events: &Vec<KillEvent>)
        requires
            old(self)@.wf(),
        ensures
            final(self)@.wf(),
            final(self)@.state == old(self)@.state,
            final(self)@ == apply_kills(old(self)@, events@),
    {
        let mut k: usize = 0;
        while k < events.len()
            invariant
                k <= events@.len(),
                self@.wf(),
                self@.state == old(self)@.state,
                self@ == apply_kills(old(self)@, events@.take(k as int)),
            decreases events@.len() - k,
        {
            assert(events@.take(k + 1).drop_last() =~= events@.take(k as int));
            // a body that finds no room in the food arena fails alone; the tick goes on
            let _ = self.player_kill(&events[k]);
            k = k + 1;
        }
        assert(events@.take(events@.len() as int) =~= events@);
    }

    /// Resolves the build requests in order.
    pub fn player_build_wall_listener(&mut self, events: &Vec<BuildWallEvent>)
        requires
            old(self)@.wf(),
        ensures
            final(self)@.wf(),
            final(self)@.state == old(self)@.state,
            final(self)@ == apply_builds(old(self)@, events@),
    {
        let mut k: usize = 0;
        while k < events.len()
            invariant
                k <= events@.len(),
                self@.wf(),
                self@.state == old(self)@.state,
                self@ == apply_builds(old(self)@, events@.take(k as int)),
            decreases events@.len() - k,
        {
            assert(events@.take(k + 1).drop_last() =~= events@.take(k as int));
            let _ = self.player_build_wall(&events[k]);
            k = k + 1;
        }
        assert(events@.take(events@.len() as int) =~= events@);
    }

    /// Resolves the scan requests in order and returns what they saw.
    pub fn player_scan_los_listener(&mut self, events: &Vec<ScanLOSEvent>) -> (r: Vec<
        LOSReportEvent,
    >)
        requires
            old(self)@.wf(),
        ensures
            final(self)@.wf(),
            final(self)@.state == old(self)@.state,
            final(self)@ == apply_scans(old(self)@, events@),
            r@ == scan_reports(old(self)@, events@),
    {
        let mut reports: Vec<LOSReportEvent> = Vec::new();
        let mut k: usize = 0;
        while k < events.len()
            invariant
                k <= events@.len(),
                self@.wf(),
                self@.state == old(self)@.state,
                self@ == apply_scans(old(self)@, events@.take(k as int)),
                reports@ == scan_reports(old(self)@, events@.take(k as int)),
            decreases events@.len() - k,
        {
            assert(events@.take(k + 1).drop_last() =~= events@.take(k as int));
            match self.player_scan_los(&events[k]) {
                Some(report) => reports.push(report),
                None => {},
            }
            k = k + 1;
        }
        assert(events@.take(events@.len() as int) =~= events@);
        reports
    }

    /// Charges every player named in the requests, in order.
    pub fn update_vitals_listener(&mut self, events: &Vec<UpdateVitalsEvent>)
        requires
            old(self)@.wf(),
        ensures
            final(self)@.wf(),
            final(self)@.state == old(self)@.state,
            final(self)@ == apply_vitals(old(self)@, events@),
    {
        let mut k: usize = 0;
        while k < events.len()
            invariant
                k <= events@.len(),
                self@.wf(),
                self@.state == old(self)@.state,
                self@ == apply_vitals(old(self)@, events@.take(k as int)),
            decreases events@.len() - k,
        {
            assert(events@.take(k + 1).drop_last() =~= events@.take(k as int));
            self.update_vitals(&events[k]);
            k = k + 1;
        }
        assert(events@.take(events@.len() as int) =~= events@);
    }

    /// Marks every player in play as idle before the tick's actions are resolved.
    pub fn reset_last_actions(&mut self)
        requires
            old(self)@.wf(),
        ensures
            final(self)@.wf(),
            final(self)@ == reset_actions(old(self)@),
    {
        proof {
            lemma_reset_actions_wf(self@);
        }
        let ghost target = reset_actions(self@);
        let mut i: usize = 0;
        while i < self.players.len()
            invariant
                i <= self@.players.len(),
                self@.players.len() == old(self)@.players.len(),
                self@ == (SimView { players: self@.players, ..old(self)@ }),
                forall|j: int| 0 <= j < i ==> self@.players[j] == target.players[j],
                forall|j: int| i <= j < self@.players.len() ==> self@.players[j] == old(self)@.players[j],
                target == reset_actions(old(self)@),
            decreases self@.players.len() - i,
        {
            match self.players[i] {
                Some(pl) => {
                    self.players.set(
                        i,
                        Some(
                            PlayerBundle {
                                board_pos: pl.board_pos,
                                is_facing: pl.is_facing,
                                vitals: pl.vitals,
                                los: pl.los,
                                last_action: PlayerActionType::Idle,
                            },
                        ),
                    );
                },
                None => {},
            }
            i = i + 1;
        }
        assert(self@.players =~= target.players);
    }

    /// Draws up the intents of a tick from the current state: each player in play and
    /// alive asks for the action drawn for its slot and for its vitals update.
    pub fn advance_players(&self, draws: &Vec<PlayerActionType>) -> (r: PlayerIntents)
        requires
            draws@.len() == self@.players.len(),
            forall|i: int| 0 <= i < draws@.len() ==> is_valid_action(#[trigger] draws@[i]),
        ensures
            r@ == plan(self@, draws@, self@.players.len()),
            r@.commands_ok(),
    {
        let mut iv = PlayerIntents {
            turns: Vec::new(),
            moves: Vec::new(),
            eats: Vec::new(),
            kills: Vec::new(),
            builds: Vec::new(),
            scans: Vec::new(),
            vitals: Vec::new(),
        };
        let mut i: usize = 0;
        while i < self.players.len()
            invariant
                i <= self@.players.len(),
                draws@.len() == self@.players.len(),
                iv@ == plan(self@, draws@, i as nat),
            decreases self@.players.len() - i,
        {
            match self.players[i] {
                Some(pl) => {
                    if pl.vitals.status == PlayerStatus::Alive {
                        iv.vitals.push(UpdateVitalsEvent { hungerer_id: i });
                        match draws[i] {
                            PlayerActionType::Idle => {},
                            PlayerActionType::MoveForward => {
                                iv.moves.push(
                                    MoveEvent {
                                        mover_id: i,
                                        mover_pos: pl.board_pos,
                                        mover_facing: pl.is_facing,
                                        movement_direction: FacingDirection::Up,
                                    },
                                );
                            },
                            PlayerActionType::MoveBackwards => {
                                iv.moves.push(
                                    MoveEvent {
                                        mover_id: i,
                                        mover_pos: pl.board_pos,
                                        mover_facing: pl.is_facing,
                                        movement_direction: FacingDirection::Down,
                                    },
                                );
                            },
                            PlayerActionType::Turn(d) => {
                                iv.turns.push(
                                    TurnEvent {
                                        turner_id: i,
                                        turner_facing: pl.is_facing,
                                        turn_direction: d,
                                    },
                                );
                            },
                            PlayerActionType::Eat => {
                                iv.eats.push(EatEvent { gorger_id: i, gorger_facing: pl.is_facing });
                            },
                            PlayerActionType::Kill => {
                                iv.kills.push(KillEvent { killer_id: i, killer_facing: pl.is_facing });
                            },
                            PlayerActionType::BuildWall => {
                                iv.builds.push(BuildWallEvent { builder_id: i });
                            },
                            PlayerActionType::ScanLOS => {
                                iv.scans.push(
                                    ScanLOSEvent { scanner_id: i, scanner_facing: pl.is_facing },
                                );
                            },
                        }
                    }
                },
                None => {},
            }
            i = i + 1;
        }
        proof {
            lemma_plan_commands(self@, draws@, self@.players.len() as nat);
        }
        iv
    }

    /// Resolves a tick's intents in the fixed order and returns what the scans saw.
    pub fn resolve_intents(&mut self, intents: &PlayerIntents) -> (r: Vec<LOSReportEvent>)
        requires
            old(self)@.wf(),
            intents@.commands_ok(),
        ensures
            final(self)@.wf(),
            final(self)@ == resolve_spec(old(self)@, intents@),
            final(self)@.state == old(self)@.state,
            r@ == scan_reports(before_scans(old(self)@, intents@), intents@.scans),
    {
        self.reset_last_actions();
        self.player_turn_listener(&intents.turns);
        self.player_move_listener(&intents.moves);
        self.player_eat_listener(&intents.eats);
        self.player_kill_listener(&intents.kills);
        self.player_build_wall_listener(&intents.builds);
        let reports = self.player_scan_los_listener(&intents.scans);
        self.update_vitals_listener(&intents.vitals);
        reports
    }

    /// Runs one tick with one drawn action per player slot: every living player acts
    /// once, the actions are resolved, and the turn counter moves on. On the tick that
    /// ends the generation the survival statistics come back; once it has ended, a tick
    /// changes nothing.
    pub fn tick(&mut self, draws: &Vec<PlayerActionType>) -> (r: TickReport)
        requires
            old(self)@.wf(),
            draws@.len() == old(self)@.players.len(),
            forall|i: int| 0 <= i < draws@.len() ==> is_valid_action(#[trigger] draws@[i]),
        ensures
            final(self)@.wf(),
            final(self)@ == tick_spec(old(self)@, draws@),
            old(self)@.state == VisualizerState::GenerationFinished ==> r.reports@.len() == 0,
            old(self)@.state == VisualizerState::SimulationRunning ==> r.reports@ == scan_reports(
                before_scans(old(self)@, plan(old(self)@, draws@, old(self)@.players.len())),
                plan(old(self)@, draws@, old(self)@.players.len()).scans,
            ),
            r.finished is Some <==> (old(self)@.state == VisualizerState::SimulationRunning
                && final(self)@.state == VisualizerState::GenerationFinished),
            r.finished matches Some(s) ==> s.started == final(self)@.players.len() && s.survived
                == final(self)@.alive_count() && s.survived <= s.started,
    {
        if self.state == VisualizerState::GenerationFinished {
            return TickReport { reports: Vec::new(), finished: None };
        }
        let intents = self.advance_players(draws);
        let reports = self.resolve_intents(&intents);
        let finished_now = self.advance_turn();
        let finished = if finished_now {
            Some(self.survival_stats())
        } else {
            None
        };
        TickReport { reports, finished }
    }
}

} // verus!
