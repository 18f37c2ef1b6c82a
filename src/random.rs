use vstd::prelude::*;

use rand::Rng;

use crate::board::{
    count_occupied, lemma_count_all_empty, lemma_count_fill, new_player, FoodType, Simulation,
    VisualizerState,
};
use crate::common::{cell_index, lemma_cell_index, pos_in, BoardPosition, OccupantType};
use crate::config::{
    default_energy_max, default_energy_min, default_food_count, default_player_count,
    DEFAULT_GRID_SIZE, DEFAULT_LOS_LENGTH, DISENGAGE_LENGTH, FOOD_PERCENT, PLAYER_PERCENT,
    TURNS_PER_GEN,
};
use crate::players::{FacingDirection, PlayerActionType};
use crate::scheduler::{before_scans, plan, scan_reports, tick_spec, TickReport};

verus! {

/// Relies on rand's `thread_rng` and `Rng::gen_range(low..high)`: a value drawn from
/// `[low, high)`. `gen_range` panics on an empty range, which `requires` rules out.
#[verifier::external_body]
fn random_in_range(low: u32, high: u32) -> (r: u32)
    requires
        low < high,
    ensures
        low <= r < high,
{
    rand::thread_rng().gen_range(low..high)
}

/// A position drawn at random on a board of the given side length.
pub fn random_board_pos(grid_size: u32) -> (r: (u32, u32))
    requires
        0 < grid_size,
    ensures
        r.0 < grid_size,
        r.1 < grid_size,
{
    let x = random_in_range(0, grid_size);
    let y = random_in_range(0, grid_size);
    (x, y)
}

/// The actions a player may draw: every kind, with a turn to either side.
pub fn default_enabled_actions() -> (r: Vec<PlayerActionType>)
    ensures
        r@ == seq![
            PlayerActionType::Idle,
            PlayerActionType::MoveForward,
            PlayerActionType::MoveBackwards,
            PlayerActionType::Turn(FacingDirection::Left),
            PlayerActionType::Turn(FacingDirection::Right),
            PlayerActionType::Eat,
            PlayerActionType::Kill,
            PlayerActionType::BuildWall,
            PlayerActionType::ScanLOS,
        ],
{
    let r = vec![
        PlayerActionType::Idle,
        PlayerActionType::MoveForward,
        PlayerActionType::MoveBackwards,
        PlayerActionType::Turn(FacingDirection::Left),
        PlayerActionType::Turn(FacingDirection::Right),
        PlayerActionType::Eat,
        PlayerActionType::Kill,
        PlayerActionType::BuildWall,
        PlayerActionType::ScanLOS,
    ];
    proof {
        assert(r@ =~= seq![
            PlayerActionType::Idle,
            PlayerActionType::MoveForward,
            PlayerActionType::MoveBackwards,
            PlayerActionType::Turn(FacingDirection::Left),
            PlayerActionType::Turn(FacingDirection::Right),
            PlayerActionType::Eat,
            PlayerActionType::Kill,
            PlayerActionType::BuildWall,
            PlayerActionType::ScanLOS,
        ]);
    }
    r
}

/// An action drawn uniformly from the enabled ones.
pub fn random_action_from(enabled: &Vec<PlayerActionType>) -> (r: PlayerActionType)
    requires
        0 < enabled@.len() <= u32::MAX,
    ensures
        enabled@.contains(r),
{
    let k = random_in_range(0, enabled.len() as u32) as usize;
    enabled[k]
}

/// An action drawn uniformly from the default enabled ones.
pub fn random_player_action() -> (r: PlayerActionType)
    ensures
        default_enabled_actions_spec().contains(r),
{
    let enabled = default_enabled_actions();
    random_action_from(&enabled)
}

/// The default enabled actions as a sequence.
pub open spec fn default_enabled_actions_spec() -> Seq<PlayerActionType> {
    seq![
        PlayerActionType::Idle,
        PlayerActionType::MoveForward,
        PlayerActionType::MoveBackwards,
        PlayerActionType::Turn(FacingDirection::Left),
        PlayerActionType::Turn(FacingDirection::Right),
        PlayerActionType::Eat,
        PlayerActionType::Kill,
        PlayerActionType::BuildWall,
        PlayerActionType::ScanLOS,
    ]
}

/// A starting energy drawn from the configured range, both ends included.
pub fn random_energy_start() -> (r: u32)
    ensures
        TURNS_PER_GEN / 2 <= r <= TURNS_PER_GEN * 2 / 3,
{
    let low = default_energy_min();
    let high = default_energy_max();
    random_in_range(low, high + 1)
}

/// One action drawn for each of `n` player slots.
pub fn random_draws(n: usize) -> (r: Vec<PlayerActionType>)
    ensures
        r@.len() == n,
        forall|i: int| 0 <= i < n ==> default_enabled_actions_spec().contains(#[trigger] r@[i]),
{
    let mut draws: Vec<PlayerActionType> = Vec::new();
    let mut i: usize = 0;
    while i < n
        invariant
            i <= n,
            draws@.len() == i,
            forall|j: int| 0 <= j < i ==> default_enabled_actions_spec().contains(#[trigger] draws@[j]),
        decreases n - i,
    {
        let a = random_player_action();
        draws.push(a);
        i = i + 1;
    }
    draws
}

/// A position drawn uniformly from the empty cells, or `None` when there is none.
fn random_empty_cell(sim: &Simulation) -> (r: Option<BoardPosition>)
    requires
        sim@.wf(),
    ensures
        r matches Some(p) ==> pos_in(sim@.size, p) && sim@.occ(p) == OccupantType::Empty,
        r is None ==> forall|p: BoardPosition|
            pos_in(sim@.size, p) ==> #[trigger] sim@.occ(p) != OccupantType::Empty,
{
    let cells = sim.empty_cells();
    if cells.len() == 0 {
        proof {
            assert forall|p: BoardPosition| pos_in(sim@.size, p) implies #[trigger] sim@.occ(p)
                != OccupantType::Empty by {
                if sim@.occ(p) == OccupantType::Empty {
                    assert(cells@.contains(p));
                }
            }
        }
        return None;
    }
    let n: u32 = if cells.len() > u32::MAX as usize {
        u32::MAX
    } else {
        cells.len() as u32
    };
    let k = random_in_range(0, n) as usize;
    Some(cells[k])
}

impl Simulation {
    /// Spawns up to `count` players on empty cells drawn at random, each with a random
    /// starting energy and the given sight. Stops early when the board or the player
    /// arena is full; returns how many it spawned.
    pub fn spawn_players(&mut self, count: u32, los_length: u32) -> (r: u32)
        requires
            old(self)@.wf(),
        ensures
            final(self)@.wf(),
            final(self)@.same_setup(old(self)@),
            r <= count,
            final(self)@.players.len() == old(self)@.players.len() + r,
            count_occupied(final(self)@.cells) == count_occupied(old(self)@.cells) + r,
            r < count ==> final(self)@.players.len() == usize::MAX || forall|p: BoardPosition|
                pos_in(final(self)@.size, p) ==> #[trigger] final(self)@.occ(p)
                    != OccupantType::Empty,
            final(self)@.foods == old(self)@.foods,
            final(self)@.walls == old(self)@.walls,
            forall|i: int|
                0 <= i < old(self)@.players.len() ==> #[trigger] final(self)@.players[i] == old(
                    self,
                )@.players[i],
            forall|i: int|
                old(self)@.players.len() <= i < final(self)@.players.len() ==> (
                #[trigger] final(self)@.players[i] matches Some(pl) && pl == new_player(
                    pl.board_pos,
                    pl.vitals.energy.value,
                    los_length,
                ) && TURNS_PER_GEN / 2 <= pl.vitals.energy.value <= TURNS_PER_GEN * 2 / 3),
    {
        let mut placed: u32 = 0;
        while placed < count
            invariant_except_break
                placed <= count,
            invariant
                self@.wf(),
                self@.same_setup(old(self)@),
                self@.players.len() == old(self)@.players.len() + placed,
                count_occupied(self@.cells) == count_occupied(old(self)@.cells) + placed,
                self@.foods == old(self)@.foods,
                self@.walls == old(self)@.walls,
                forall|i: int|
                    0 <= i < old(self)@.players.len() ==> #[trigger] self@.players[i] == old(
                        self,
                    )@.players[i],
                forall|i: int|
                    old(self)@.players.len() <= i < self@.players.len() ==> (
                    #[trigger] self@.players[i] matches Some(pl) && pl == new_player(
                        pl.board_pos,
                        pl.vitals.energy.value,
                        los_length,
                    ) && TURNS_PER_GEN / 2 <= pl.vitals.energy.value <= TURNS_PER_GEN * 2 / 3),
            ensures
                placed <= count,
                placed < count ==> self@.players.len() == usize::MAX || forall|p: BoardPosition|
                    pos_in(self@.size, p) ==> #[trigger] self@.occ(p) != OccupantType::Empty,
            decreases count - placed,
        {
            let pos = match random_empty_cell(self) {
                Some(p) => p,
                None => {
                    break ;
                },
            };
            let energy = random_energy_start();
            proof {
                lemma_cell_index(self@.size, pos, pos);
                lemma_count_fill(
                    self@.cells,
                    cell_index(self@.size, pos),
                    OccupantType::Player(self@.players.len() as usize),
                );
            }
            match self.spawn_player_at(pos, energy, los_length) {
                Ok(_) => {
                    placed = placed + 1;
                },
                Err(_) => {
                    break ;
                },
            }
        }
        placed
    }

    /// Places up to `count` meals on empty cells drawn at random. Stops early when the
    /// board or the food arena is full; returns how many it placed.
    pub fn spawn_food(&mut self, count: u32) -> (r: u32)
        requires
            old(self)@.wf(),
        ensures
            final(self)@.wf(),
            final(self)@.same_setup(old(self)@),
            r <= count,
            final(self)@.foods.len() == old(self)@.foods.len() + r,
            count_occupied(final(self)@.cells) == count_occupied(old(self)@.cells) + r,
            r < count ==> final(self)@.foods.len() == usize::MAX || forall|p: BoardPosition|
                pos_in(final(self)@.size, p) ==> #[trigger] final(self)@.occ(p)
                    != OccupantType::Empty,
            final(self)@.players == old(self)@.players,
            final(self)@.walls == old(self)@.walls,
            forall|i: int|
                0 <= i < old(self)@.foods.len() ==> #[trigger] final(self)@.foods[i] == old(
                    self,
                )@.foods[i],
            forall|i: int|
                old(self)@.foods.len() <= i < final(self)@.foods.len() ==> (
                #[trigger] final(self)@.foods[i] matches Some(f) && f.energy_value.value
                    == TURNS_PER_GEN / 3 * 2),
    {
        let mut placed: u32 = 0;
        while placed < count
            invariant_except_break
                placed <= count,
            invariant
                self@.wf(),
                self@.same_setup(old(self)@),
                self@.foods.len() == old(self)@.foods.len() + placed,
                count_occupied(self@.cells) == count_occupied(old(self)@.cells) + placed,
                self@.players == old(self)@.players,
                self@.walls == old(self)@.walls,
                forall|i: int|
                    0 <= i < old(self)@.foods.len() ==> #[trigger] self@.foods[i] == old(
                        self,
                    )@.foods[i],
                forall|i: int|
                    old(self)@.foods.len() <= i < self@.foods.len() ==> (
                    #[trigger] self@.foods[i] matches Some(f) && f.energy_value.value
                        == TURNS_PER_GEN / 3 * 2),
            ensures
                placed <= count,
                placed < count ==> self@.foods.len() == usize::MAX || forall|p: BoardPosition|
                    pos_in(self@.size, p) ==> #[trigger] self@.occ(p) != OccupantType::Empty,
            decreases count - placed,
        {
            let pos = match random_empty_cell(self) {
                Some(p) => p,
                None => {
                    break ;
                },
            };
            proof {
                lemma_cell_index(self@.size, pos, pos);
                lemma_count_fill(
                    self@.cells,
                    cell_index(self@.size, pos),
                    OccupantType::Food(self@.foods.len() as usize),
                );
            }
            match self.place_food_at(pos, FoodType::Meal) {
                Ok(_) => {
                    placed = placed + 1;
                },
                Err(_) => {
                    break ;
                },
            }
        }
        placed
    }

    /// A generation on the default board, at turn zero and running: the default number
    /// of players, each alive, facing right, with a random starting energy, and the
    /// default number of meals, all on random empty cells.
    pub fn new_default() -> (r: Simulation)
        ensures
            r@.wf(),
            r@.size == DEFAULT_GRID_SIZE,
            r@.turn == 0,
            r@.state == VisualizerState::SimulationRunning,
            r@.turns_per_gen == TURNS_PER_GEN,
            r@.disengage_length == DISENGAGE_LENGTH,
            r@.players.len() == DEFAULT_GRID_SIZE * DEFAULT_GRID_SIZE * PLAYER_PERCENT / 100,
            r@.foods.len() == (DEFAULT_GRID_SIZE * DEFAULT_GRID_SIZE * PLAYER_PERCENT / 100)
                * FOOD_PERCENT / 100,
            r@.walls.len() == 0,
            forall|i: int|
                0 <= i < r@.players.len() ==> (#[trigger] r@.players[i] matches Some(pl) && pl
                    == new_player(pl.board_pos, pl.vitals.energy.value, DEFAULT_LOS_LENGTH)
                    && TURNS_PER_GEN / 2 <= pl.vitals.energy.value <= TURNS_PER_GEN * 2 / 3),
            forall|i: int|
                0 <= i < r@.foods.len() ==> (#[trigger] r@.foods[i] matches Some(f)
                    && f.energy_value.value == TURNS_PER_GEN / 3 * 2),
    {
        let mut sim = Simulation::new(DEFAULT_GRID_SIZE, TURNS_PER_GEN, DISENGAGE_LENGTH);
        proof {
            lemma_count_all_empty((DEFAULT_GRID_SIZE * DEFAULT_GRID_SIZE) as nat);
        }
        let player_count = default_player_count();
        let placed = sim.spawn_players(player_count, DEFAULT_LOS_LENGTH);
        proof {
            if placed < player_count && sim@.players.len() != usize::MAX {
                sim@.lemma_full_board();
            }
        }
        let food_count = default_food_count();
        let meals = sim.spawn_food(food_count);
        proof {
            if meals < food_count && sim@.foods.len() != usize::MAX {
                sim@.lemma_full_board();
            }
        }
        sim
    }

    /// Runs one tick with an action drawn at random for every player slot. On the tick
    /// that ends the generation the survival statistics come back; once it has ended, a
    /// tick changes nothing.
    pub fn run_tick(&mut self) -> (r: TickReport)
        requires
            old(self)@.wf(),
        ensures
            final(self)@.wf(),
            exists|draws: Seq<PlayerActionType>|
                draws.len() == old(self)@.players.len() && (forall|i: int|
                    0 <= i < draws.len() ==> default_enabled_actions_spec().contains(
                        #[trigger] draws[i],
                    )) && final(self)@ == tick_spec(old(self)@, draws) && (old(self)@.state
                    == VisualizerState::SimulationRunning ==> r.reports@ == scan_reports(
                    before_scans(old(self)@, plan(old(self)@, draws, old(self)@.players.len())),
                    plan(old(self)@, draws, old(self)@.players.len()).scans,
                )),
            old(self)@.state == VisualizerState::GenerationFinished ==> r.reports@.len() == 0,
            r.finished is Some <==> (old(self)@.state == VisualizerState::SimulationRunning
                && final(self)@.state == VisualizerState::GenerationFinished),
            r.finished matches Some(s) ==> s.started == final(self)@.players.len() && s.survived
                == final(self)@.alive_count() && s.survived <= s.started,
    {
        let draws = random_draws(self.players.len());
        self.tick(&draws)
    }
}

} // verus!
