use vstd::prelude::*;

use crate::common::{
    cell_index, lemma_cell_index, occ_in, pos_in, rerror, Board, BoardPosition, ErrorKind,
    OccupantType, RungerError, MAX_GRID_SIZE,
};
use crate::config::default_food_value;
use crate::players::{
    Energy, FacingDirection, LOSType, LineOfSight, PlayerActionType, PlayerStatus, Vitals,
};

verus! {

/// Everything the simulation keeps about one player.
#[derive(Debug, Clone, Copy, PartialEq, Eq, Hash, Structural)]
pub struct PlayerBundle {
    pub board_pos: BoardPosition,
    pub is_facing: FacingDirection,
    pub vitals: Vitals,
    pub los: LineOfSight,
    pub last_action: PlayerActionType,
}

/// A food item on the board and the energy it gives when eaten.
#[derive(Debug, Clone, Copy, PartialEq, Eq, Hash, Structural)]
pub struct FoodBundle {
    pub board_pos: BoardPosition,
    pub energy_value: Energy,
}

/// A wall on the board; walls are never removed.
#[derive(Debug, Clone, Copy, PartialEq, Eq, Hash, Structural)]
pub struct WallBundle {
    pub board_pos: BoardPosition,
}

/// The kind of food to place: a meal of the configured value, or the body of a
/// killed player, which carries the energy it had left.
#[derive(Debug, Clone, Copy, PartialEq, Eq, Hash, Structural)]
pub enum FoodType {
    Meal,
    DeadMeat(u32),
}

/// The scheduler's two states; the second is final.
#[derive(Debug, Clone, Copy, PartialEq, Eq, Hash, Structural)]
pub enum VisualizerState {
    SimulationRunning,
    GenerationFinished,
}

/// The turn counter of a generation.
#[derive(Debug, Clone, Copy, PartialEq, Eq, Hash, Structural)]
pub struct Turn {
    pub num: u32,
}

impl Turn {
    pub fn new() -> (r: Turn)
        ensures
            r.num == 0,
    {
        Turn { num: 0 }
    }
}

/// How many players a generation started with and how many are still alive.
#[derive(Debug, Clone, Copy, PartialEq, Eq, Hash, Structural)]
pub struct SurvivalStats {
    pub started: usize,
    pub survived: usize,
}

/// The whole state of a simulation: the board, the arenas of players, food and
/// walls that the board's handles point into, and the scheduler.
///
/// A killed player and an eaten food item leave `None` in their arena slot, so
/// handles stay stable.
pub struct Simulation {
    pub board: Board,
    pub players: Vec<Option<PlayerBundle>>,
    pub foods: Vec<Option<FoodBundle>>,
    pub walls: Vec<WallBundle>,
    pub turn: Turn,
    pub state: VisualizerState,
    pub turns_per_gen: u32,
    pub disengage_length: u32,
}

/// The mathematical model of a [`Simulation`].
pub struct SimView {
    pub size: int,
    pub cells: Seq<OccupantType>,
    pub players: Seq<Option<PlayerBundle>>,
    pub foods: Seq<Option<FoodBundle>>,
    pub walls: Seq<WallBundle>,
    pub turn: int,
    pub state: VisualizerState,
    pub turns_per_gen: int,
    pub disengage_length: int,
}

impl View for Simulation {
    type V = SimView;

    open spec fn view(&self) -> SimView {
        SimView {
            size: self.board.size as int,
            cells: self.board.occupants@,
            players: self.players@,
            foods: self.foods@,
            walls: self.walls@,
            turn: self.turn.num as int,
            state: self.state,
            turns_per_gen: self.turns_per_gen as int,
            disengage_length: self.disengage_length as int,
        }
    }
}

impl SimView {
    /// The occupant of a cell.
    pub open spec fn occ(self, p: BoardPosition) -> OccupantType {
        occ_in(self.size, self.cells, p)
    }

    /// Whether `id` is the handle of a player still in play.
    pub open spec fn has_player(self, id: int) -> bool {
        0 <= id < self.players.len() && self.players[id] is Some
    }

    /// The record of the player with handle `id`.
    pub open spec fn player(self, id: int) -> PlayerBundle {
        self.players[id]->Some_0
    }

    /// The same state with the record of player `id` replaced.
    pub open spec fn with_player(self, id: int, pl: PlayerBundle) -> SimView {
        SimView { players: self.players.update(id, Some(pl)), ..self }
    }

    /// The same state with the last action of player `id` replaced.
    pub open spec fn with_last_action(self, id: int, a: PlayerActionType) -> SimView {
        self.with_player(id, PlayerBundle { last_action: a, ..self.player(id) })
    }

    /// The handle that a cell holds points back at that cell.
    pub open spec fn cell_ok(self, p: BoardPosition) -> bool {
        match self.occ(p) {
            OccupantType::Empty => true,
            OccupantType::Player(id) => self.has_player(id as int) && self.player(
                id as int,
            ).board_pos == p,
            OccupantType::Food(id) => 0 <= id < self.foods.len() && self.foods[id as int] is Some
                && self.foods[id as int]->Some_0.board_pos == p,
            OccupantType::Wall(id) => 0 <= id < self.walls.len() && self.walls[id as int].board_pos
                == p,
        }
    }

    /// A player in play stands on the board, on a cell that holds its handle.
    pub open spec fn player_ok(self, id: int) -> bool {
        self.players[id] matches Some(pl) ==> pos_in(self.size, pl.board_pos) && self.occ(
            pl.board_pos,
        ) == OccupantType::Player(id as usize)
    }

    /// A food item not yet eaten lies on the board, on a cell that holds its handle.
    pub open spec fn food_ok(self, id: int) -> bool {
        self.foods[id] matches Some(f) ==> pos_in(self.size, f.board_pos) && self.occ(f.board_pos)
            == OccupantType::Food(id as usize)
    }

    /// A wall stands on the board, on a cell that holds its handle.
    pub open spec fn wall_ok(self, id: int) -> bool {
        pos_in(self.size, self.walls[id].board_pos) && self.occ(self.walls[id].board_pos)
            == OccupantType::Wall(id as usize)
    }

    /// The board and the arenas agree one to one: every handle on a cell belongs to an
    /// entity that records that cell as its position, and every entity in play is
    /// recorded on the cell it names.
    pub open spec fn wf(self) -> bool {
        &&& 0 < self.size <= MAX_GRID_SIZE
        &&& self.cells.len() == self.size * self.size
        &&& self.players.len() <= usize::MAX
        &&& self.foods.len() <= usize::MAX
        &&& self.walls.len() <= usize::MAX
        &&& forall|p: BoardPosition| pos_in(self.size, p) ==> #[trigger] self.cell_ok(p)
        &&& forall|i: int| 0 <= i < self.players.len() ==> #[trigger] self.player_ok(i)
        &&& forall|i: int| 0 <= i < self.foods.len() ==> #[trigger] self.food_ok(i)
        &&& forall|i: int| 0 <= i < self.walls.len() ==> #[trigger] self.wall_ok(i)
        &&& self.turns_per_gen < u32::MAX
        &&& 0 <= self.turn <= self.turns_per_gen + 1
        &&& self.state == VisualizerState::SimulationRunning ==> self.turn <= self.turns_per_gen
    }

    /// The state after food with the given energy is placed on an empty cell.
    pub open spec fn with_food(self, p: BoardPosition, energy: u32) -> SimView {
        SimView {
            cells: self.cells.update(
                cell_index(self.size, p),
                OccupantType::Food(self.foods.len() as usize),
            ),
            foods: self.foods.push(Some(FoodBundle { board_pos: p, energy_value: Energy { value: energy } })),
            ..self
        }
    }

    /// The state after a player with the given energy and sight is spawned on an empty cell.
    pub open spec fn with_new_player(self, p: BoardPosition, energy: u32, los_length: u32) -> SimView {
        SimView {
            cells: self.cells.update(
                cell_index(self.size, p),
                OccupantType::Player(self.players.len() as usize),
            ),
            players: self.players.push(Some(new_player(p, energy, los_length))),
            ..self
        }
    }

    /// Whether two states share the board size and the scheduler's settings and state.
    pub open spec fn same_setup(self, other: SimView) -> bool {
        &&& self.size == other.size
        &&& self.turn == other.turn
        &&& self.state == other.state
        &&& self.turns_per_gen == other.turns_per_gen
        &&& self.disengage_length == other.disengage_length
    }

    /// When no cell of a well-formed board is empty, all of them count as occupied.
    pub proof fn lemma_full_board(self)
        requires
            self.wf(),
            forall|p: BoardPosition| pos_in(self.size, p) ==> #[trigger] self.occ(p)
                != OccupantType::Empty,
        ensures
            count_occupied(self.cells) == self.size * self.size,
    {
        assert forall|k: int| 0 <= k < self.cells.len() implies #[trigger] self.cells[k]
            != OccupantType::Empty by {
            lemma_index_position(self.size, k);
            let p = BoardPosition { x: (k % self.size) as u32, y: (k / self.size) as u32 };
            assert(self.occ(p) != OccupantType::Empty);
        }
        lemma_count_all_occupied(self.cells);
    }

    /// The number of players in play whose status is alive.
    pub open spec fn alive_count(self) -> nat {
        count_alive(self.players)
    }
}

/// A freshly spawned player: facing right, alive, idle.
pub open spec fn new_player(p: BoardPosition, energy: u32, los_length: u32) -> PlayerBundle {
    PlayerBundle {
        board_pos: p,
        is_facing: FacingDirection::Right,
        vitals: Vitals { energy: Energy { value: energy }, status: PlayerStatus::Alive },
        los: LineOfSight { los_type: LOSType::StraightLine, length: los_length },
        last_action: PlayerActionType::Idle,
    }
}

/// The number of entries that hold a player whose status is alive.
pub open spec fn count_alive(players: Seq<Option<PlayerBundle>>) -> nat
    decreases players.len(),
{
    if players.len() == 0 {
        0
    } else {
        count_alive(players.drop_last()) + if players.last() matches Some(pl) && pl.vitals.status
            == PlayerStatus::Alive {
            1nat
        } else {
            0nat
        }
    }
}

/// The number of cells that are not empty.
pub open spec fn count_occupied(cells: Seq<OccupantType>) -> nat
    decreases cells.len(),
{
    if cells.len() == 0 {
        0
    } else {
        count_occupied(cells.drop_last()) + if cells.last() == OccupantType::Empty {
            0nat
        } else {
            1nat
        }
    }
}

/// A board of empty cells has none occupied.
pub proof fn lemma_count_all_empty(n: nat)
    ensures
        count_occupied(Seq::new(n, |k: int| OccupantType::Empty)) == 0,
    decreases n,
{
    if n > 0 {
        assert(Seq::new(n, |k: int| OccupantType::Empty).drop_last() =~= Seq::new(
            (n - 1) as nat,
            |k: int| OccupantType::Empty,
        ));
        lemma_count_all_empty((n - 1) as nat);
    }
}

/// A board whose cells are all occupied counts every one of them.
pub proof fn lemma_count_all_occupied(cells: Seq<OccupantType>)
    requires
        forall|k: int| 0 <= k < cells.len() ==> #[trigger] cells[k] != OccupantType::Empty,
    ensures
        count_occupied(cells) == cells.len(),
    decreases cells.len(),
{
    if cells.len() > 0 {
        let d = cells.drop_last();
        assert forall|k: int| 0 <= k < d.len() implies #[trigger] d[k] != OccupantType::Empty by {
            assert(d[k] == cells[k]);
        }
        lemma_count_all_occupied(d);
    }
}

/// Filling an empty cell adds one to the count of occupied cells.
pub proof fn lemma_count_fill(cells: Seq<OccupantType>, i: int, x: OccupantType)
    requires
        0 <= i < cells.len(),
        cells[i] == OccupantType::Empty,
        x != OccupantType::Empty,
    ensures
        count_occupied(cells.update(i, x)) == count_occupied(cells) + 1,
    decreases cells.len(),
{
    let u = cells.update(i, x);
    if i == cells.len() - 1 {
        assert(u.drop_last() =~= cells.drop_last());
    } else {
        assert(u.drop_last() =~= cells.drop_last().update(i, x));
        lemma_count_fill(cells.drop_last(), i, x);
    }
}

/// Every cell index belongs to a position on the board.
pub proof fn lemma_index_position(size: int, k: int)
    requires
        0 < size <= MAX_GRID_SIZE,
        0 <= k < size * size,
    ensures
        ({
            let p = BoardPosition { x: (k % size) as u32, y: (k / size) as u32 };
            pos_in(size, p) && cell_index(size, p) == k
        }),
{
    vstd::arithmetic::div_mod::lemma_fundamental_div_mod(k, size);
    vstd::arithmetic::div_mod::lemma_mod_pos_bound(k, size);
    vstd::arithmetic::div_mod::lemma_div_pos_is_pos(k, size);
    let (q, r) = (k / size, k % size);
    assert(q < size) by (nonlinear_arith)
        requires
            k == size * q + r,
            0 <= r,
            k < size * size,
            0 < size,
    ;
    assert(q * size == size * q) by (nonlinear_arith);
}

/// Reading a cell after one cell was written.
pub proof fn lemma_occ_update(
    size: int,
    cells: Seq<OccupantType>,
    t: BoardPosition,
    x: OccupantType,
    q: BoardPosition,
)
    requires
        0 < size,
        cells.len() == size * size,
        pos_in(size, t),
        pos_in(size, q),
    ensures
        occ_in(size, cells.update(cell_index(size, t), x), q) == if q == t {
            x
        } else {
            occ_in(size, cells, q)
        },
{
    lemma_cell_index(size, q, t);
    lemma_cell_index(size, t, q);
}

/// Placing food on an empty cell keeps the board and the arenas in agreement.
pub proof fn lemma_with_food_wf(v: SimView, p: BoardPosition, energy: u32)
    requires
        v.wf(),
        pos_in(v.size, p),
        v.occ(p) == OccupantType::Empty,
        v.foods.len() < usize::MAX,
    ensures
        v.with_food(p, energy).wf(),
{
    let w = v.with_food(p, energy);
    lemma_cell_index(v.size, p, p);
    let x = OccupantType::Food(v.foods.len() as usize);
    assert forall|q: BoardPosition| pos_in(w.size, q) implies #[trigger] w.cell_ok(q) by {
        lemma_occ_update(v.size, v.cells, p, x, q);
        assert(v.cell_ok(q));
    }
    assert forall|i: int| 0 <= i < w.players.len() implies #[trigger] w.player_ok(i) by {
        assert(v.player_ok(i));
        if let Some(pl) = v.players[i] {
            lemma_occ_update(v.size, v.cells, p, x, pl.board_pos);
        }
    }
    assert forall|i: int| 0 <= i < w.foods.len() implies #[trigger] w.food_ok(i) by {
        if i < v.foods.len() {
            assert(v.food_ok(i));
            if let Some(f) = v.foods[i] {
                lemma_occ_update(v.size, v.cells, p, x, f.board_pos);
            }
        } else {
            lemma_occ_update(v.size, v.cells, p, x, p);
        }
    }
    assert forall|i: int| 0 <= i < w.walls.len() implies #[trigger] w.wall_ok(i) by {
        assert(v.wall_ok(i));
        lemma_occ_update(v.size, v.cells, p, x, v.walls[i].board_pos);
    }
}

/// Spawning a player on an empty cell keeps the board and the arenas in agreement.
pub proof fn lemma_with_new_player_wf(v: SimView, p: BoardPosition, energy: u32, los_length: u32)
    requires
        v.wf(),
        pos_in(v.size, p),
        v.occ(p) == OccupantType::Empty,
        v.players.len() < usize::MAX,
    ensures
        v.with_new_player(p, energy, los_length).wf(),
{
    let w = v.with_new_player(p, energy, los_length);
    lemma_cell_index(v.size, p, p);
    let x = OccupantType::Player(v.players.len() as usize);
    assert forall|q: BoardPosition| pos_in(w.size, q) implies #[trigger] w.cell_ok(q) by {
        lemma_occ_update(v.size, v.cells, p, x, q);
        assert(v.cell_ok(q));
    }
    assert forall|i: int| 0 <= i < w.players.len() implies #[trigger] w.player_ok(i) by {
        if i < v.players.len() {
            assert(v.player_ok(i));
            if let Some(pl) = v.players[i] {
                lemma_occ_update(v.size, v.cells, p, x, pl.board_pos);
            }
        } else {
            lemma_occ_update(v.size, v.cells, p, x, p);
        }
    }
    assert forall|i: int| 0 <= i < w.foods.len() implies #[trigger] w.food_ok(i) by {
        assert(v.food_ok(i));
        if let Some(f) = v.foods[i] {
            lemma_occ_update(v.size, v.cells, p, x, f.board_pos);
        }
    }
    assert forall|i: int| 0 <= i < w.walls.len() implies #[trigger] w.wall_ok(i) by {
        assert(v.wall_ok(i));
        lemma_occ_update(v.size, v.cells, p, x, v.walls[i].board_pos);
    }
}

/// A state that differs from a well-formed one only in the scheduler stays well formed
/// when the scheduler's own bounds hold.
pub proof fn lemma_wf_frame(v: SimView, w: SimView)
    requires
        v.wf(),
        w.size == v.size,
        w.cells == v.cells,
        w.players == v.players,
        w.foods == v.foods,
        w.walls == v.walls,
        w.turns_per_gen < u32::MAX,
        0 <= w.turn <= w.turns_per_gen + 1,
        w.state == VisualizerState::SimulationRunning ==> w.turn <= w.turns_per_gen,
    ensures
        w.wf(),
{
    assert forall|p: BoardPosition| pos_in(w.size, p) implies #[trigger] w.cell_ok(p) by {
        assert(v.cell_ok(p));
    }
    assert forall|i: int| 0 <= i < w.players.len() implies #[trigger] w.player_ok(i) by {
        assert(v.player_ok(i));
    }
    assert forall|i: int| 0 <= i < w.foods.len() implies #[trigger] w.food_ok(i) by {
        assert(v.food_ok(i));
    }
    assert forall|i: int| 0 <= i < w.walls.len() implies #[trigger] w.wall_ok(i) by {
        assert(v.wall_ok(i));
    }
}

impl Simulation {
    /// A simulation on an empty board with no entities, at turn zero.
    pub fn new(grid_size: u32, turns_per_gen: u32, disengage_length: u32) -> (r: Simulation)
        requires
            0 < grid_size <= MAX_GRID_SIZE,
            turns_per_gen < u32::MAX,
        ensures
            r@.wf(),
            r@.size == grid_size,
            r@.cells == Seq::new((grid_size * grid_size) as nat, |k: int| OccupantType::Empty),
            r@.players.len() == 0,
            r@.foods.len() == 0,
            r@.walls.len() == 0,
            r@.turn == 0,
            r@.state == VisualizerState::SimulationRunning,
            r@.turns_per_gen == turns_per_gen,
            r@.disengage_length == disengage_length,
    {
        let r = Simulation {
            board: Board::new(grid_size),
            players: Vec::new(),
            foods: Vec::new(),
            walls: Vec::new(),
            turn: Turn::new(),
            state: VisualizerState::SimulationRunning,
            turns_per_gen,
            disengage_length,
        };
        assert forall|p: BoardPosition| pos_in(r@.size, p) implies #[trigger] r@.cell_ok(p) by {
            lemma_cell_index(r@.size, p, p);
        }
        r
    }

    /// Places a food item on an empty cell. A meal carries the configured food value,
    /// a body the energy given with it.
    pub fn place_food_at(&mut self, pos: BoardPosition, food_type: FoodType) -> (r: Result<
        (),
        RungerError,
    >)
        requires
            old(self)@.wf(),
        ensures
            final(self)@.wf(),
            !pos_in(old(self)@.size, pos) ==> r == Err::<(), RungerError>(
                RungerError { kind: ErrorKind::OutOfBounds },
            ),
            pos_in(old(self)@.size, pos) && old(self)@.occ(pos) != OccupantType::Empty ==> r == Err::<
                (),
                RungerError,
            >(RungerError { kind: ErrorKind::OccupiedTile }),
            pos_in(old(self)@.size, pos) && old(self)@.occ(pos) == OccupantType::Empty
                && old(self)@.foods.len() == usize::MAX ==> r == Err::<(), RungerError>(
                RungerError { kind: ErrorKind::ArenaFull },
            ),
            r is Err ==> final(self)@ == old(self)@,
            r is Ok <==> (pos_in(old(self)@.size, pos) && old(self)@.occ(pos) == OccupantType::Empty
                && old(self)@.foods.len() < usize::MAX),
            r is Ok ==> final(self)@ == old(self)@.with_food(pos, food_energy(food_type)),
    {
        let energy_value = match food_type {
            FoodType::Meal => default_food_value(),
            FoodType::DeadMeat(energy_val) => energy_val,
        };
        match self.board.occ_at(&pos) {
            None => Err(rerror(ErrorKind::OutOfBounds)),
            Some(occupant) => {
                if *occupant != OccupantType::Empty {
                    return Err(rerror(ErrorKind::OccupiedTile));
                }
                if self.foods.len() == usize::MAX {
                    return Err(rerror(ErrorKind::ArenaFull));
                }
                proof {
                    lemma_with_food_wf(self@, pos, energy_value);
                }
                let id = self.foods.len();
                self.foods.push(Some(FoodBundle { board_pos: pos, energy_value: Energy::new(energy_value) }));
                self.board.add_occ(pos, OccupantType::Food(id));
                Ok(())
            },
        }
    }

    /// Spawns a player on an empty cell, facing right, alive and idle, and returns its handle.
    pub fn spawn_player_at(&mut self, pos: BoardPosition, energy: u32, los_length: u32) -> (r:
        Result<usize, RungerError>)
        requires
            old(self)@.wf(),
        ensures
            final(self)@.wf(),
            !pos_in(old(self)@.size, pos) ==> r == Err::<usize, RungerError>(
                RungerError { kind: ErrorKind::OutOfBounds },
            ),
            pos_in(old(self)@.size, pos) && old(self)@.occ(pos) != OccupantType::Empty ==> r == Err::<
                usize,
                RungerError,
            >(RungerError { kind: ErrorKind::OccupiedTile }),
            pos_in(old(self)@.size, pos) && old(self)@.occ(pos) == OccupantType::Empty
                && old(self)@.players.len() == usize::MAX ==> r == Err::<usize, RungerError>(
                RungerError { kind: ErrorKind::ArenaFull },
            ),
            r is Err ==> final(self)@ == old(self)@,
            r is Ok <==> (pos_in(old(self)@.size, pos) && old(self)@.occ(pos) == OccupantType::Empty
                && old(self)@.players.len() < usize::MAX),
            r is Ok ==> r == Ok::<usize, RungerError>(old(self)@.players.len() as usize)
                && final(self)@ == old(self)@.with_new_player(pos, energy, los_length),
    {
        match self.board.occ_at(&pos) {
            None => Err(rerror(ErrorKind::OutOfBounds)),
            Some(occupant) => {
                if *occupant != OccupantType::Empty {
                    return Err(rerror(ErrorKind::OccupiedTile));
                }
                if self.players.len() == usize::MAX {
                    return Err(rerror(ErrorKind::ArenaFull));
                }
                proof {
                    lemma_with_new_player_wf(self@, pos, energy, los_length);
                }
                let id = self.players.len();
                let pl = PlayerBundle {
                    board_pos: pos,
                    is_facing: FacingDirection::Right,
                    vitals: Vitals::new(energy),
                    los: LineOfSight { los_type: LOSType::StraightLine, length: los_length },
                    last_action: PlayerActionType::Idle,
                };
                self.players.push(Some(pl));
                self.board.add_occ(pos, OccupantType::Player(id));
                Ok(id)
            },
        }
    }

    /// Every empty cell, row by row.
    pub fn empty_cells(&self) -> (r: Vec<BoardPosition>)
        requires
            self@.wf(),
        ensures
            forall|k: int|
                0 <= k < r@.len() ==> pos_in(self@.size, #[trigger] r@[k]) && self@.occ(r@[k])
                    == OccupantType::Empty,
            forall|p: BoardPosition|
                pos_in(self@.size, p) && self@.occ(p) == OccupantType::Empty ==> r@.contains(p),
    {
        let size = self.board.size;
        let mut cells: Vec<BoardPosition> = Vec::new();
        let mut y: u32 = 0;
        while y < size
            invariant
                self@.wf(),
                size == self@.size,
                y <= size,
                forall|k: int|
                    0 <= k < cells@.len() ==> pos_in(self@.size, #[trigger] cells@[k])
                        && self@.occ(cells@[k]) == OccupantType::Empty,
                forall|p: BoardPosition|
                    pos_in(self@.size, p) && p.y < y && self@.occ(p) == OccupantType::Empty
                        ==> cells@.contains(p),
            decreases size - y,
        {
            let mut x: u32 = 0;
            while x < size
                invariant
                    self@.wf(),
                    size == self@.size,
                    y < size,
                    x <= size,
                    forall|k: int|
                        0 <= k < cells@.len() ==> pos_in(self@.size, #[trigger] cells@[k])
                            && self@.occ(cells@[k]) == OccupantType::Empty,
                    forall|p: BoardPosition|
                        pos_in(self@.size, p) && (p.y < y || (p.y == y && p.x < x)) && self@.occ(p)
                            == OccupantType::Empty ==> cells@.contains(p),
                decreases size - x,
            {
                let p = BoardPosition::new(x, y);
                let ghost before = cells@;
                if *self.board.occ_at(&p).unwrap() == OccupantType::Empty {
                    cells.push(p);
                    assert(cells@[before.len() as int] == p);
                    assert forall|q: BoardPosition| before.contains(q) implies cells@.contains(q) by {
                        let j = choose|j: int| 0 <= j < before.len() && before[j] == q;
                        assert(cells@[j] == q);
                    }
                }
                x = x + 1;
            }
            y = y + 1;
        }
        cells
    }

    /// Moves the turn counter on; once it exceeds the generation length the generation
    /// finishes. Returns whether this call finished it.
    pub fn advance_turn(&mut self) -> (r: bool)
        requires
            old(self)@.wf(),
        ensures
            final(self)@ == advance_turn_spec(old(self)@),
            r == (old(self)@.state == VisualizerState::SimulationRunning && final(self)@.state
                == VisualizerState::GenerationFinished),
            final(self)@.wf(),
    {
        if self.state == VisualizerState::GenerationFinished {
            return false;
        }
        proof {
            lemma_wf_frame(self@, advance_turn_spec(self@));
        }
        self.turn.num = self.turn.num + 1;
        if self.turn.num > self.turns_per_gen {
            self.state = VisualizerState::GenerationFinished;
            true
        } else {
            false
        }
    }

    /// How many players the generation started with, and how many are alive.
    pub fn survival_stats(&self) -> (r: SurvivalStats)
        ensures
            r.started == self@.players.len(),
            r.survived == self@.alive_count(),
            r.survived <= r.started,
    {
        let mut survived: usize = 0;
        let mut i: usize = 0;
        while i < self.players.len()
            invariant
                i <= self.players@.len(),
                survived == count_alive(self.players@.take(i as int)),
                survived <= i,
            decreases self.players@.len() - i,
        {
            assert(self.players@.take(i + 1).drop_last() =~= self.players@.take(i as int));
            match self.players[i] {
                Some(pl) => {
                    if pl.vitals.status == PlayerStatus::Alive {
                        survived = survived + 1;
                    }
                },
                None => {},
            }
            i = i + 1;
        }
        assert(self.players@.take(self.players@.len() as int) =~= self.players@);
        SurvivalStats { started: self.players.len(), survived }
    }
}

/// The energy a food item of the given kind carries.
pub open spec fn food_energy(t: FoodType) -> u32 {
    match t {
        FoodType::Meal => (crate::config::TURNS_PER_GEN / 3 * 2) as u32,
        FoodType::DeadMeat(e) => e,
    }
}

/// The scheduler's state after one more turn.
pub open spec fn advance_turn_spec(v: SimView) -> SimView {
    if v.state == VisualizerState::GenerationFinished {
        v
    } else if v.turn + 1 > v.turns_per_gen {
        SimView { turn: v.turn + 1, state: VisualizerState::GenerationFinished, ..v }
    } else {
        SimView { turn: v.turn + 1, ..v }
    }
}

} // verus!
