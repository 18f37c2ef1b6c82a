use runger::common::{get_los_tiles, rerror, Board, BoardPosition, ErrorKind, RungerError};
use runger::config::{
    action_cost, default_energy_max, default_energy_min, default_food_count,
    default_food_value, default_player_count,
};
use runger::players::{
    position_after_turn, FacingDirection, LOSType, LineOfSight, PlayerActionType, Vitals,
};
use runger::random::{
    default_enabled_actions, random_board_pos, random_energy_start, random_player_action,
};

#[test]
fn default_configuration() {
    assert_eq!(default_player_count(), 3000);
    assert_eq!(default_food_count(), 1500);
    assert_eq!(default_energy_min(), 150);
    assert_eq!(default_energy_max(), 200);
    assert_eq!(default_food_value(), 200);
}

#[test]
fn action_costs() {
    assert_eq!(action_cost(&PlayerActionType::Idle), 1);
    assert_eq!(action_cost(&PlayerActionType::Turn(FacingDirection::Left)), 1);
    assert_eq!(action_cost(&PlayerActionType::ScanLOS), 1);
    assert_eq!(action_cost(&PlayerActionType::Eat), 2);
    assert_eq!(action_cost(&PlayerActionType::MoveForward), 3);
    assert_eq!(action_cost(&PlayerActionType::MoveBackwards), 3);
    assert_eq!(action_cost(&PlayerActionType::BuildWall), 20);
    assert_eq!(action_cost(&PlayerActionType::Kill), 40);
}

#[test]
fn quarter_turns() {
    assert_eq!(position_after_turn(&FacingDirection::Up, FacingDirection::Left).unwrap(), FacingDirection::Left);
    assert_eq!(position_after_turn(&FacingDirection::Left, FacingDirection::Left).unwrap(), FacingDirection::Down);
    assert_eq!(position_after_turn(&FacingDirection::Down, FacingDirection::Left).unwrap(), FacingDirection::Right);
    assert_eq!(position_after_turn(&FacingDirection::Right, FacingDirection::Left).unwrap(), FacingDirection::Up);
    assert_eq!(position_after_turn(&FacingDirection::Up, FacingDirection::Right).unwrap(), FacingDirection::Right);
    assert_eq!(position_after_turn(&FacingDirection::Right, FacingDirection::Right).unwrap(), FacingDirection::Down);
    assert_eq!(position_after_turn(&FacingDirection::Down, FacingDirection::Right).unwrap(), FacingDirection::Left);
    assert_eq!(position_after_turn(&FacingDirection::Left, FacingDirection::Right).unwrap(), FacingDirection::Up);
    assert_eq!(position_after_turn(&FacingDirection::Left, FacingDirection::Up).unwrap_err().kind, ErrorKind::IllegalTurn);
    assert_eq!(position_after_turn(&FacingDirection::Left, FacingDirection::Down).unwrap_err().kind, ErrorKind::IllegalTurn);
}

#[test]
fn errors_carry_their_kind() {
    let e: RungerError = rerror(ErrorKind::OccupiedTile);
    assert_eq!(e.kind, ErrorKind::OccupiedTile);
    assert_eq!(e.message(), "the tile is not empty");
}

#[test]
fn new_vitals_are_alive() {
    let v = Vitals::new(12);
    assert_eq!(v.energy.value, 12);
    assert_eq!(v.status, runger::players::PlayerStatus::Alive);
}

#[test]
fn board_lookups() {
    let mut board = Board::new(3);
    assert_eq!(board.occupants.len(), 9);
    assert!(board.occ_at(&BoardPosition::new(3, 0)).is_none());
    board.add_occ(BoardPosition::new(2, 1), runger::common::OccupantType::Wall(4));
    assert_eq!(board.occupants[5], runger::common::OccupantType::Wall(4));
    let (p, o) = board.looking_at(&BoardPosition::new(1, 1), &FacingDirection::Right).unwrap();
    assert_eq!(p, BoardPosition::new(2, 1));
    assert_eq!(*o, runger::common::OccupantType::Wall(4));
    assert_eq!(Board::looking_pos(&BoardPosition::new(0, 0), &FacingDirection::Down), (0, -1));
    assert!(!board.pos_within_bounds(&(0, -1)));
    assert!(board.pos_within_bounds(&(2, 2)));
    board.add_occ(BoardPosition::new(7, 7), runger::common::OccupantType::Wall(5));
    assert_eq!(board.occupants.len(), 9);
}

#[test]
fn line_of_sight_tiles() {
    let board = Board::new(5);
    let los = LineOfSight { los_type: LOSType::StraightLine, length: 3 };
    let tiles = get_los_tiles(&BoardPosition::new(1, 1), &FacingDirection::Up, &los, &board);
    assert_eq!(
        tiles,
        vec![BoardPosition::new(1, 2), BoardPosition::new(1, 3), BoardPosition::new(1, 4)]
    );
    let tiles = get_los_tiles(&BoardPosition::new(1, 1), &FacingDirection::Left, &los, &board);
    assert_eq!(tiles, vec![BoardPosition::new(0, 1)]);
    let tiles = get_los_tiles(&BoardPosition::new(4, 0), &FacingDirection::Right, &los, &board);
    assert!(tiles.is_empty());
}

#[test]
fn random_draws_stay_in_range() {
    let enabled = default_enabled_actions();
    assert_eq!(enabled.len(), 9);
    for _ in 0..200 {
        let (x, y) = random_board_pos(7);
        assert!(x < 7 && y < 7);
        let e = random_energy_start();
        assert!((150..=200).contains(&e));
        assert!(enabled.contains(&random_player_action()));
    }
}

#[test]
fn board_position_constructors() {
    assert_eq!(BoardPosition::from_tuple((3, 4)), BoardPosition { x: 3, y: 4 });
    assert_eq!(BoardPosition::new(3, 4), BoardPosition { x: 3, y: 4 });
}

#[test]
fn cells_changed_in_place() {
    let mut board = Board::new(4);
    *board.occ_at_mut(&BoardPosition::new(1, 2)).unwrap() = runger::common::OccupantType::Wall(0);
    assert_eq!(board.occupants[9], runger::common::OccupantType::Wall(0));
    assert!(board.occ_at_mut(&BoardPosition::new(4, 2)).is_none());
    let (p, o) = board.looking_at_mut(&BoardPosition::new(1, 2), &FacingDirection::Up).unwrap();
    assert_eq!(p, BoardPosition::new(1, 3));
    *o = runger::common::OccupantType::Food(1);
    assert_eq!(board.occupants[13], runger::common::OccupantType::Food(1));
    assert!(board.looking_at_mut(&BoardPosition::new(1, 3), &FacingDirection::Up).is_none());
    // backing away from a wall that stands right behind is impossible
    assert!(board.disengage_to_mut(&BoardPosition::new(1, 1), &FacingDirection::Down, 3).is_none());
    let (p, o) = board
        .disengage_to_mut(&BoardPosition::new(2, 1), &FacingDirection::Left, 3)
        .unwrap();
    assert_eq!(p, BoardPosition::new(3, 1));
    *o = runger::common::OccupantType::Player(2);
    assert_eq!(board.occupants[7], runger::common::OccupantType::Player(2));
}
