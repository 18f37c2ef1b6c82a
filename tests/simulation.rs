use runger::actions::{
    BuildWallEvent, EatEvent, KillEvent, MoveEvent, ScanLOSEvent, TurnEvent, UpdateVitalsEvent,
};
use runger::board::{FoodType, Simulation, VisualizerState};
use runger::common::{BoardPosition, ErrorKind, OccupantType};
use runger::players::{FacingDirection, PlayerActionType, PlayerStatus};

fn pos(x: u32, y: u32) -> BoardPosition {
    BoardPosition::new(x, y)
}

fn occ(sim: &Simulation, x: u32, y: u32) -> OccupantType {
    *sim.board.occ_at(&pos(x, y)).unwrap()
}

fn energy(sim: &Simulation, id: usize) -> u32 {
    sim.players[id].unwrap().vitals.energy.value
}

/// Checks that every handle on the board points back at its cell and the other way round.
fn assert_consistent(sim: &Simulation) {
    let size = sim.board.size;
    for y in 0..size {
        for x in 0..size {
            match occ(sim, x, y) {
                OccupantType::Empty => {}
                OccupantType::Player(id) => assert_eq!(sim.players[id].unwrap().board_pos, pos(x, y)),
                OccupantType::Food(id) => assert_eq!(sim.foods[id].unwrap().board_pos, pos(x, y)),
                OccupantType::Wall(id) => assert_eq!(sim.walls[id].board_pos, pos(x, y)),
            }
        }
    }
    for (id, p) in sim.players.iter().enumerate() {
        if let Some(p) = p {
            assert_eq!(occ(sim, p.board_pos.x, p.board_pos.y), OccupantType::Player(id));
        }
    }
    for (id, f) in sim.foods.iter().enumerate() {
        if let Some(f) = f {
            assert_eq!(occ(sim, f.board_pos.x, f.board_pos.y), OccupantType::Food(id));
        }
    }
    for (id, w) in sim.walls.iter().enumerate() {
        assert_eq!(occ(sim, w.board_pos.x, w.board_pos.y), OccupantType::Wall(id));
    }
}

fn move_forward(id: usize, sim: &Simulation) -> MoveEvent {
    let p = sim.players[id].unwrap();
    MoveEvent {
        mover_id: id,
        mover_pos: p.board_pos,
        mover_facing: p.is_facing,
        movement_direction: FacingDirection::Up,
    }
}

#[test]
fn move_forward_into_empty_cell() {
    let mut sim = Simulation::new(4, 300, 3);
    let id = sim.spawn_player_at(pos(0, 0), 50, 3).unwrap();
    let ev = move_forward(id, &sim);
    assert!(sim.move_player(&ev));
    assert_eq!(sim.players[id].unwrap().board_pos, pos(1, 0));
    assert_eq!(occ(&sim, 0, 0), OccupantType::Empty);
    assert_eq!(occ(&sim, 1, 0), OccupantType::Player(id));
    assert_eq!(sim.players[id].unwrap().last_action, PlayerActionType::MoveForward);
    assert_consistent(&sim);
}

#[test]
fn move_into_occupied_cell_idles() {
    let mut sim = Simulation::new(4, 300, 3);
    let a = sim.spawn_player_at(pos(0, 0), 50, 3).unwrap();
    sim.place_food_at(pos(1, 0), FoodType::Meal).unwrap();
    let ev = move_forward(a, &sim);
    assert!(!sim.move_player(&ev));
    assert_eq!(sim.players[a].unwrap().board_pos, pos(0, 0));
    assert_eq!(sim.players[a].unwrap().last_action, PlayerActionType::Idle);
    assert_consistent(&sim);
}

#[test]
fn eat_food_ahead() {
    let mut sim = Simulation::new(4, 300, 3);
    let id = sim.spawn_player_at(pos(1, 0), 5, 3).unwrap();
    sim.place_food_at(pos(2, 0), FoodType::DeadMeat(10)).unwrap();
    assert_eq!(occ(&sim, 2, 0), OccupantType::Food(0));
    let ev = EatEvent { gorger_id: id, gorger_facing: FacingDirection::Right };
    assert!(sim.player_eat(&ev));
    assert_eq!(energy(&sim, id), 15);
    assert_eq!(occ(&sim, 2, 0), OccupantType::Empty);
    assert!(sim.foods[0].is_none());
    assert_eq!(sim.players[id].unwrap().last_action, PlayerActionType::Eat);
    assert_consistent(&sim);
}

#[test]
fn eat_without_food_idles() {
    let mut sim = Simulation::new(4, 300, 3);
    let id = sim.spawn_player_at(pos(1, 0), 5, 3).unwrap();
    let ev = EatEvent { gorger_id: id, gorger_facing: FacingDirection::Right };
    assert!(!sim.player_eat(&ev));
    assert_eq!(energy(&sim, id), 5);
    assert_eq!(sim.players[id].unwrap().last_action, PlayerActionType::Idle);
}

#[test]
fn eat_saturates_energy() {
    let mut sim = Simulation::new(4, 300, 3);
    let id = sim.spawn_player_at(pos(0, 0), u32::MAX - 1, 3).unwrap();
    sim.place_food_at(pos(1, 0), FoodType::DeadMeat(10)).unwrap();
    let ev = EatEvent { gorger_id: id, gorger_facing: FacingDirection::Right };
    assert!(sim.player_eat(&ev));
    assert_eq!(energy(&sim, id), u32::MAX);
}

#[test]
fn kill_leaves_a_body() {
    let mut sim = Simulation::new(4, 300, 3);
    let killer = sim.spawn_player_at(pos(0, 0), 100, 3).unwrap();
    let victim = sim.spawn_player_at(pos(1, 0), 7, 3).unwrap();
    let ev = KillEvent { killer_id: killer, killer_facing: FacingDirection::Right };
    assert_eq!(sim.player_kill(&ev), Ok(true));
    assert!(sim.players[victim].is_none());
    match occ(&sim, 1, 0) {
        OccupantType::Food(f) => assert_eq!(sim.foods[f].unwrap().energy_value.value, 7),
        other => panic!("expected food, found {:?}", other),
    }
    assert_eq!(sim.players[killer].unwrap().last_action, PlayerActionType::Kill);
    assert_consistent(&sim);
    // the kill is paid for in the vitals update
    sim.update_vitals(&UpdateVitalsEvent { hungerer_id: killer });
    assert_eq!(energy(&sim, killer), 60);
}

#[test]
fn kill_of_dead_player_fails() {
    let mut sim = Simulation::new(4, 300, 3);
    let killer = sim.spawn_player_at(pos(0, 0), 100, 3).unwrap();
    let victim = sim.spawn_player_at(pos(1, 0), 1, 3).unwrap();
    sim.update_vitals(&UpdateVitalsEvent { hungerer_id: victim });
    assert_eq!(sim.players[victim].unwrap().vitals.status, PlayerStatus::Dead);
    let ev = KillEvent { killer_id: killer, killer_facing: FacingDirection::Right };
    assert_eq!(sim.player_kill(&ev), Ok(false));
    assert_eq!(occ(&sim, 1, 0), OccupantType::Player(victim));
    assert_eq!(sim.players[killer].unwrap().last_action, PlayerActionType::Idle);
}

#[test]
fn starving_player_dies_and_stops_acting() {
    let mut sim = Simulation::new(4, 300, 3);
    let id = sim.spawn_player_at(pos(0, 0), 1, 3).unwrap();
    let report = sim.tick(&vec![PlayerActionType::Turn(FacingDirection::Left)]);
    assert!(report.finished.is_none());
    assert_eq!(energy(&sim, id), 0);
    assert_eq!(sim.players[id].unwrap().vitals.status, PlayerStatus::Dead);
    let intents = sim.advance_players(&vec![PlayerActionType::MoveForward]);
    assert!(intents.moves.is_empty());
    assert!(intents.vitals.is_empty());
    let before = sim.players[id].unwrap();
    sim.tick(&vec![PlayerActionType::MoveForward]);
    assert_eq!(sim.players[id].unwrap().board_pos, before.board_pos);
    assert_eq!(sim.players[id].unwrap().vitals, before.vitals);
}

#[test]
fn generation_finishes_exactly_once() {
    let mut sim = Simulation::new(4, 2, 3);
    let a = sim.spawn_player_at(pos(0, 0), 100, 3).unwrap();
    let _b = sim.spawn_player_at(pos(3, 3), 2, 3).unwrap();
    let draws = vec![PlayerActionType::Idle, PlayerActionType::Idle];
    assert!(sim.tick(&draws).finished.is_none());
    assert_eq!(sim.turn.num, 1);
    // the second player has spent its energy after two idle ticks
    assert!(sim.tick(&draws).finished.is_none());
    assert_eq!(sim.turn.num, 2);
    assert_eq!(sim.state, VisualizerState::SimulationRunning);
    let last = sim.tick(&draws);
    let stats = last.finished.expect("the generation ends here");
    assert_eq!(stats.started, 2);
    assert_eq!(stats.survived, 1);
    assert_eq!(sim.state, VisualizerState::GenerationFinished);
    assert_eq!(energy(&sim, a), 97);
    let after = sim.tick(&draws);
    assert!(after.finished.is_none());
    assert_eq!(sim.turn.num, 3);
    assert_eq!(energy(&sim, a), 97);
}

#[test]
fn advance_turn_reports_the_transition() {
    let mut sim = Simulation::new(4, 1, 3);
    assert!(!sim.advance_turn());
    assert!(sim.advance_turn());
    assert!(!sim.advance_turn());
    assert_eq!(sim.turn.num, 2);
}

#[test]
fn energy_only_rises_by_eating() {
    let mut sim = Simulation::new(5, 300, 3);
    let a = sim.spawn_player_at(pos(0, 0), 50, 3).unwrap();
    let b = sim.spawn_player_at(pos(2, 2), 50, 3).unwrap();
    sim.place_food_at(pos(3, 2), FoodType::DeadMeat(30)).unwrap();
    let draws = vec![PlayerActionType::MoveForward, PlayerActionType::Eat];
    sim.tick(&draws);
    assert_eq!(energy(&sim, a), 47);
    assert_eq!(energy(&sim, b), 78);
    assert_eq!(sim.players[b].unwrap().last_action, PlayerActionType::Eat);
    let draws = vec![PlayerActionType::Eat, PlayerActionType::Eat];
    sim.tick(&draws);
    assert_eq!(energy(&sim, a), 46);
    assert_eq!(energy(&sim, b), 77);
    assert_consistent(&sim);
}

#[test]
fn scanning_twice_reports_the_same() {
    let mut sim = Simulation::new(6, 300, 3);
    let id = sim.spawn_player_at(pos(0, 1), 50, 3).unwrap();
    sim.place_food_at(pos(2, 1), FoodType::Meal).unwrap();
    let board_before = sim.board.occupants.clone();
    let ev = ScanLOSEvent { scanner_id: id, scanner_facing: FacingDirection::Right };
    let first = sim.player_scan_los(&ev).expect("the food is in sight");
    assert_eq!(first.scanned_type, OccupantType::Food(0));
    assert_eq!(first.scanner_id, id);
    let second = sim.player_scan_los(&ev).expect("the food is still in sight");
    assert_eq!(first, second);
    assert_eq!(sim.board.occupants, board_before);
    assert_eq!(sim.players[id].unwrap().last_action, PlayerActionType::ScanLOS);
}

#[test]
fn scan_out_of_range_reports_nothing() {
    let mut sim = Simulation::new(8, 300, 3);
    let id = sim.spawn_player_at(pos(0, 0), 50, 2).unwrap();
    sim.place_food_at(pos(3, 0), FoodType::Meal).unwrap();
    let ev = ScanLOSEvent { scanner_id: id, scanner_facing: FacingDirection::Right };
    assert!(sim.player_scan_los(&ev).is_none());
    let ev = ScanLOSEvent { scanner_id: id, scanner_facing: FacingDirection::Left };
    assert!(sim.player_scan_los(&ev).is_none());
}

#[test]
fn actions_at_the_edge_fail() {
    let mut sim = Simulation::new(4, 300, 3);
    let id = sim.spawn_player_at(pos(3, 1), 50, 3).unwrap();
    let before = sim.board.occupants.clone();
    let ev = move_forward(id, &sim);
    assert!(!sim.move_player(&ev));
    assert!(!sim.player_eat(&EatEvent { gorger_id: id, gorger_facing: FacingDirection::Right }));
    assert_eq!(
        sim.player_kill(&KillEvent { killer_id: id, killer_facing: FacingDirection::Right }),
        Ok(false)
    );
    assert!(!sim.player_build_wall(&BuildWallEvent { builder_id: id }));
    assert_eq!(sim.board.occupants, before);
    assert!(sim.walls.is_empty());
    assert!(sim.board.looking_at(&pos(3, 1), &FacingDirection::Right).is_none());
    assert!(sim.board.looking_at(&pos(0, 0), &FacingDirection::Down).is_none());
    assert!(sim.board.looking_at(&pos(0, 0), &FacingDirection::Left).is_none());
    assert!(sim.board.looking_at(&pos(0, 3), &FacingDirection::Up).is_none());
}

#[test]
fn build_wall_ahead() {
    let mut sim = Simulation::new(4, 300, 3);
    let id = sim.spawn_player_at(pos(1, 1), 50, 3).unwrap();
    assert!(sim.player_build_wall(&BuildWallEvent { builder_id: id }));
    assert_eq!(occ(&sim, 2, 1), OccupantType::Wall(0));
    assert_eq!(sim.walls[0].board_pos, pos(2, 1));
    assert_eq!(sim.players[id].unwrap().last_action, PlayerActionType::BuildWall);
    assert!(!sim.player_build_wall(&BuildWallEvent { builder_id: id }));
    assert_eq!(sim.players[id].unwrap().last_action, PlayerActionType::Idle);
    assert_consistent(&sim);
}

#[test]
fn retreat_stops_before_obstacles() {
    let mut sim = Simulation::new(8, 300, 3);
    let id = sim.spawn_player_at(pos(5, 0), 50, 3).unwrap();
    sim.place_food_at(pos(1, 0), FoodType::Meal).unwrap();
    let ev = MoveEvent {
        mover_id: id,
        mover_pos: pos(5, 0),
        mover_facing: FacingDirection::Right,
        movement_direction: FacingDirection::Down,
    };
    assert!(sim.move_player(&ev));
    assert_eq!(sim.players[id].unwrap().board_pos, pos(2, 0));
    assert_eq!(sim.players[id].unwrap().last_action, PlayerActionType::MoveBackwards);
    let ev = MoveEvent { mover_pos: pos(2, 0), ..ev };
    assert!(!sim.move_player(&ev));
    assert_eq!(sim.players[id].unwrap().board_pos, pos(2, 0));
    assert_consistent(&sim);
}

#[test]
fn disengage_to_stops_at_the_edge() {
    let board = runger::common::Board::new(5);
    let (p, o) = board.disengage_to(&pos(1, 1), &FacingDirection::Right, 3).unwrap();
    assert_eq!(p, pos(0, 1));
    assert_eq!(*o, OccupantType::Empty);
    assert!(board.disengage_to(&pos(0, 1), &FacingDirection::Right, 3).is_none());
    assert_eq!(board.max_disengage_position(&pos(4, 4), &FacingDirection::Up, 3), Some(pos(4, 1)));
    assert_eq!(board.max_disengage_position(&pos(4, 4), &FacingDirection::Up, 0), None);
}

#[test]
fn turning_left_and_right() {
    let mut sim = Simulation::new(4, 300, 3);
    let id = sim.spawn_player_at(pos(1, 1), 50, 3).unwrap();
    let ev = TurnEvent {
        turner_id: id,
        turner_facing: FacingDirection::Right,
        turn_direction: FacingDirection::Left,
    };
    assert!(sim.player_turn(&ev));
    assert_eq!(sim.players[id].unwrap().is_facing, FacingDirection::Up);
    assert_eq!(
        sim.players[id].unwrap().last_action,
        PlayerActionType::Turn(FacingDirection::Left)
    );
    let again = TurnEvent { turner_facing: FacingDirection::Up, turn_direction: FacingDirection::Right, ..ev };
    assert!(sim.player_turn(&again));
    assert_eq!(sim.players[id].unwrap().is_facing, FacingDirection::Right);
}

#[test]
fn placing_food_reports_errors() {
    let mut sim = Simulation::new(4, 300, 3);
    assert_eq!(
        sim.place_food_at(pos(4, 0), FoodType::Meal).unwrap_err().kind,
        ErrorKind::OutOfBounds
    );
    sim.place_food_at(pos(1, 1), FoodType::Meal).unwrap();
    assert_eq!(sim.foods[0].unwrap().energy_value.value, 200);
    assert_eq!(
        sim.place_food_at(pos(1, 1), FoodType::Meal).unwrap_err().kind,
        ErrorKind::OccupiedTile
    );
    assert_eq!(
        sim.spawn_player_at(pos(1, 1), 5, 3).unwrap_err().kind,
        ErrorKind::OccupiedTile
    );
    assert_eq!(
        sim.spawn_player_at(pos(0, 9), 5, 3).unwrap_err().kind,
        ErrorKind::OutOfBounds
    );
    assert_eq!(sim.foods.len(), 1);
}

#[test]
fn random_ticks_keep_the_board_consistent() {
    let mut sim = Simulation::new(10, 40, 3);
    assert_eq!(sim.spawn_players(30, 3), 30);
    assert_eq!(sim.spawn_food(15), 15);
    assert_consistent(&sim);
    for p in sim.players.iter() {
        let e = p.unwrap().vitals.energy.value;
        assert!((150..=200).contains(&e));
    }
    let mut finished = 0;
    for _ in 0..45 {
        let report = sim.run_tick();
        if report.finished.is_some() {
            finished += 1;
        }
        assert_consistent(&sim);
    }
    assert_eq!(finished, 1);
    assert_eq!(sim.state, VisualizerState::GenerationFinished);
}

#[test]
fn spawning_stops_when_the_board_is_full() {
    let mut sim = Simulation::new(2, 300, 3);
    assert_eq!(sim.spawn_players(10, 3), 4);
    assert_eq!(sim.spawn_food(1), 0);
    assert!(sim.empty_cells().is_empty());
    assert_consistent(&sim);
}

#[test]
fn intents_follow_the_draws() {
    let mut sim = Simulation::new(6, 300, 3);
    for x in 0..5 {
        sim.spawn_player_at(pos(x, 0), 50, 3).unwrap();
    }
    let draws = vec![
        PlayerActionType::Idle,
        PlayerActionType::MoveBackwards,
        PlayerActionType::Turn(FacingDirection::Right),
        PlayerActionType::Kill,
        PlayerActionType::ScanLOS,
    ];
    let intents = sim.advance_players(&draws);
    assert_eq!(intents.vitals.len(), 5);
    assert_eq!(intents.moves.len(), 1);
    assert_eq!(intents.moves[0].mover_id, 1);
    assert_eq!(intents.moves[0].movement_direction, FacingDirection::Down);
    assert_eq!(intents.turns.len(), 1);
    assert_eq!(intents.turns[0].turner_facing, FacingDirection::Right);
    assert_eq!(intents.kills.len(), 1);
    assert_eq!(intents.kills[0].killer_id, 3);
    assert_eq!(intents.scans.len(), 1);
    assert!(intents.eats.is_empty());
    assert!(intents.builds.is_empty());
    let report = sim.tick(&draws);
    // player 3 kills player 4 before player 4 scans
    assert!(sim.players[4].is_none());
    assert!(report.reports.is_empty());
    assert_eq!(sim.players[2].unwrap().is_facing, FacingDirection::Down);
    assert_eq!(sim.players[0].unwrap().last_action, PlayerActionType::Idle);
    assert_consistent(&sim);
}

#[test]
fn default_generation_starts_populated() {
    let sim = Simulation::new_default();
    assert_eq!(sim.state, VisualizerState::SimulationRunning);
    assert_eq!(sim.turn.num, 0);
    assert_eq!(sim.board.size, 100);
    assert_eq!(sim.players.len(), 3000);
    assert_eq!(sim.foods.len(), 1500);
    assert!(sim.walls.is_empty());
    for p in sim.players.iter() {
        let p = p.unwrap();
        assert_eq!(p.vitals.status, PlayerStatus::Alive);
        assert_eq!(p.is_facing, FacingDirection::Right);
        assert!((150..=200).contains(&p.vitals.energy.value));
    }
    for f in sim.foods.iter() {
        assert_eq!(f.unwrap().energy_value.value, 200);
    }
    assert_eq!(sim.empty_cells().len(), 10000 - 4500);
    assert_consistent(&sim);
}
