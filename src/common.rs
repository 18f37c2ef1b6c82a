use vstd::prelude::*;

use crate::players::{FacingDirection, LineOfSight};

verus! {

/// The largest side length a board may have; every cell index then fits in 32 bits.
pub const MAX_GRID_SIZE: u32 = 65535;

/// What went wrong in an operation that the simulation reports rather than absorbs.
#[derive(Debug, Clone, Copy, PartialEq, Eq, Hash, Structural)]
pub enum ErrorKind {
    /// A position outside the board.
    OutOfBounds,
    /// Something was to be placed on a cell that is not empty.
    OccupiedTile,
    /// A turn up or down was asked for; only left and right exist.
    IllegalTurn,
    /// An arena of entities has no room for another handle.
    ArenaFull,
}

/// An error of the simulation kernel.
#[derive(Debug, Clone, Copy, PartialEq, Eq, Hash, Structural)]
pub struct RungerError {
    pub kind: ErrorKind,
}

impl RungerError {
    /// A short description of the error.
    pub fn message(&self) -> (r: &'static str)
        ensures
            self.kind == ErrorKind::OutOfBounds ==> r@ == "position is outside the board"@,
            self.kind == ErrorKind::OccupiedTile ==> r@ == "the tile is not empty"@,
            self.kind == ErrorKind::IllegalTurn ==> r@ == "a player can only turn left or right"@,
            self.kind == ErrorKind::ArenaFull ==> r@ == "no handle is left for another entity"@,
    {
        match self.kind {
            ErrorKind::OutOfBounds => "position is outside the board",
            ErrorKind::OccupiedTile => "the tile is not empty",
            ErrorKind::IllegalTurn => "a player can only turn left or right",
            ErrorKind::ArenaFull => "no handle is left for another entity",
        }
    }
}

/// Builds an error of the given kind.
pub fn rerror(kind: ErrorKind) -> (r: RungerError)
    ensures
        r.kind == kind,
{
    RungerError { kind }
}

/// A cell of the board.
#[derive(Debug, Clone, Copy, PartialEq, Eq, Hash, Structural)]
pub struct BoardPosition {
    pub x: u32,
    pub y: u32,
}

impl BoardPosition {
    pub fn new(x: u32, y: u32) -> (r: BoardPosition)
        ensures
            r.x == x,
            r.y == y,
    {
        BoardPosition { x, y }
    }

    pub fn from_tuple(t: (u32, u32)) -> (r: BoardPosition)
        ensures
            r.x == t.0,
            r.y == t.1,
    {
        BoardPosition { x: t.0, y: t.1 }
    }
}

/// What stands on a cell: nothing, or the handle of a player, a food item or a wall.
#[derive(Debug, Clone, Copy, PartialEq, Eq, Hash, Structural)]
pub enum OccupantType {
    Empty,
    Player(usize),
    Food(usize),
    Wall(usize),
}

/// The step that one move in a direction makes: up is +y, right is +x.
pub open spec fn delta(d: FacingDirection) -> (int, int) {
    match d {
        FacingDirection::Up => (0, 1),
        FacingDirection::Right => (1, 0),
        FacingDirection::Down => (0, -1),
        FacingDirection::Left => (-1, 0),
    }
}

/// The direction pointing the other way.
pub open spec fn opposite(d: FacingDirection) -> FacingDirection {
    match d {
        FacingDirection::Up => FacingDirection::Down,
        FacingDirection::Down => FacingDirection::Up,
        FacingDirection::Left => FacingDirection::Right,
        FacingDirection::Right => FacingDirection::Left,
    }
}

/// Whether the coordinates lie on a board of the given side length.
pub open spec fn within(size: int, x: int, y: int) -> bool {
    0 <= x < size && 0 <= y < size
}

/// Whether the position lies on a board of the given side length.
pub open spec fn pos_in(size: int, p: BoardPosition) -> bool {
    p.x < size && p.y < size
}

/// Where a position's cell is kept: row by row.
pub open spec fn cell_index(size: int, p: BoardPosition) -> int {
    p.y * size + p.x
}

/// The cell one step from `p` in direction `d`, if it is on the board.
pub open spec fn ahead(size: int, p: BoardPosition, d: FacingDirection) -> Option<BoardPosition> {
    let x = p.x + delta(d).0;
    let y = p.y + delta(d).1;
    if within(size, x, y) {
        Some(BoardPosition { x: x as u32, y: y as u32 })
    } else {
        None
    }
}

/// The occupant of a position, given the board's cells.
pub open spec fn occ_in(size: int, cells: Seq<OccupantType>, p: BoardPosition) -> OccupantType {
    cells[cell_index(size, p)]
}

/// Where a player at `p` facing `d` ends up when it backs away for at most `n` steps,
/// stopping before the first cell that is off the board or not empty.
pub open spec fn retreat(
    size: int,
    cells: Seq<OccupantType>,
    p: BoardPosition,
    d: FacingDirection,
    n: nat,
) -> BoardPosition
    decreases n,
{
    if n == 0 {
        p
    } else {
        match ahead(size, p, opposite(d)) {
            Some(q) => if occ_in(size, cells, q) == OccupantType::Empty {
                retreat(size, cells, q, d, (n - 1) as nat)
            } else {
                p
            },
            None => p,
        }
    }
}

/// How many steps fit between `p` and the board's edge in direction `d`.
pub open spec fn room(size: int, p: BoardPosition, d: FacingDirection) -> int {
    match d {
        FacingDirection::Up => size - 1 - p.y,
        FacingDirection::Right => size - 1 - p.x,
        FacingDirection::Down => p.y as int,
        FacingDirection::Left => p.x as int,
    }
}

/// The position `k` steps from `p` in direction `d`.
pub open spec fn steps_from(p: BoardPosition, d: FacingDirection, k: int) -> BoardPosition {
    match d {
        FacingDirection::Up => BoardPosition { x: p.x, y: (p.y + k) as u32 },
        FacingDirection::Right => BoardPosition { x: (p.x + k) as u32, y: p.y },
        FacingDirection::Down => BoardPosition { x: p.x, y: (p.y - k) as u32 },
        FacingDirection::Left => BoardPosition { x: (p.x - k) as u32, y: p.y },
    }
}

/// The cells a straight line of sight of length `n` covers from `p`, nearest first.
pub open spec fn los_tiles(size: int, p: BoardPosition, d: FacingDirection, n: int) -> Seq<
    BoardPosition,
> {
    let m = if n < room(size, p, d) {
        n
    } else {
        room(size, p, d)
    };
    Seq::new(m as nat, |k: int| steps_from(p, d, k + 1))
}

/// The first occupant that is not empty along `tiles`, if any.
pub open spec fn first_seen(size: int, cells: Seq<OccupantType>, tiles: Seq<BoardPosition>) -> Option<
    OccupantType,
>
    decreases tiles.len(),
{
    if tiles.len() == 0 {
        None
    } else if occ_in(size, cells, tiles[0]) != OccupantType::Empty {
        Some(occ_in(size, cells, tiles[0]))
    } else {
        first_seen(size, cells, tiles.drop_first())
    }
}

/// A position on the board has an index inside the cells, and no other position shares it.
pub proof fn lemma_cell_index(size: int, p: BoardPosition, q: BoardPosition)
    requires
        0 < size,
        pos_in(size, p),
        pos_in(size, q),
    ensures
        0 <= cell_index(size, p) < size * size,
        cell_index(size, p) == cell_index(size, q) ==> p == q,
{
    let (px, py, qx, qy) = (p.x as int, p.y as int, q.x as int, q.y as int);
    assert(0 <= py * size + px < size * size) by (nonlinear_arith)
        requires
            0 <= px < size,
            0 <= py < size,
    ;
    if cell_index(size, p) == cell_index(size, q) {
        assert(py == qy && px == qx) by (nonlinear_arith)
            requires
                0 <= px < size,
                0 <= py < size,
                0 <= qx < size,
                0 <= qy < size,
                py * size + px == qy * size + qx,
        ;
    }
}

/// The authoritative map from each cell of a square grid to its occupant.
pub struct Board {
    pub size: u32,
    pub occupants: Vec<OccupantType>,
}

impl Board {
    /// The side length is in range and every cell has an entry.
    pub open spec fn wf(&self) -> bool {
        &&& 0 < self.size <= MAX_GRID_SIZE
        &&& self.occupants@.len() == self.size * self.size
    }

    /// The occupant of a cell.
    pub open spec fn occ(&self, p: BoardPosition) -> OccupantType {
        occ_in(self.size as int, self.occupants@, p)
    }

    /// A board of the given side length with every cell empty.
    pub fn new(size: u32) -> (r: Board)
        requires
            0 < size <= MAX_GRID_SIZE,
        ensures
            r.wf(),
            r.size == size,
            r.occupants@ == Seq::new((size * size) as nat, |k: int| OccupantType::Empty),
    {
        assert(size * size <= MAX_GRID_SIZE * MAX_GRID_SIZE) by (nonlinear_arith)
            requires
                size <= MAX_GRID_SIZE,
        ;
        let n: usize = (size as usize) * (size as usize);
        let mut occupants: Vec<OccupantType> = Vec::new();
        let mut i: usize = 0;
        while i < n
            invariant
                i <= n,
                n == size * size,
                occupants@ == Seq::new(i as nat, |k: int| OccupantType::Empty),
            decreases n - i,
        {
            occupants.push(OccupantType::Empty);
            i = i + 1;
            assert(occupants@ =~= Seq::new(i as nat, |k: int| OccupantType::Empty));
        }
        Board { size, occupants }
    }

    /// The coordinates one step from `player_pos` in direction `is_facing`.
    pub fn looking_pos(player_pos: &BoardPosition, is_facing: &FacingDirection) -> (r: (i64, i64))
        ensures
            r.0 == player_pos.x + delta(*is_facing).0,
            r.1 == player_pos.y + delta(*is_facing).1,
    {
        let x = player_pos.x as i64;
        let y = player_pos.y as i64;
        match is_facing {
            FacingDirection::Up => (x, y + 1),
            FacingDirection::Right => (x + 1, y),
            FacingDirection::Down => (x, y - 1),
            FacingDirection::Left => (x - 1, y),
        }
    }

    /// Whether the coordinates lie on this board.
    pub fn pos_within_bounds(&self, pos_to_check: &(i64, i64)) -> (r: bool)
        ensures
            r == within(self.size as int, pos_to_check.0 as int, pos_to_check.1 as int),
    {
        pos_to_check.0 >= 0 && pos_to_check.1 >= 0 && pos_to_check.0 < self.size as i64
            && pos_to_check.1 < self.size as i64
    }

    /// The cell one step ahead, if it is on this board.
    pub fn looking_target(&self, pos: &BoardPosition, facing: &FacingDirection) -> (r: Option<
        BoardPosition,
    >)
        ensures
            r == ahead(self.size as int, *pos, *facing),
    {
        let p = Board::looking_pos(pos, facing);
        if self.pos_within_bounds(&p) {
            Some(BoardPosition::new(p.0 as u32, p.1 as u32))
        } else {
            None
        }
    }

    fn index_of(&self, pos: &BoardPosition) -> (r: usize)
        requires
            self.wf(),
            pos_in(self.size as int, *pos),
        ensures
            r == cell_index(self.size as int, *pos),
            r < self.occupants@.len(),
    {
        proof {
            lemma_cell_index(self.size as int, *pos, *pos);
            let (x, y, n) = (pos.x as int, pos.y as int, self.size as int);
            assert(y * n + x < n * n <= MAX_GRID_SIZE * MAX_GRID_SIZE) by (nonlinear_arith)
                requires
                    0 <= x < n,
                    0 <= y < n,
                    n <= MAX_GRID_SIZE,
            ;
        }
        (pos.y as usize) * (self.size as usize) + (pos.x as usize)
    }

    /// The occupant of a cell; `None` for a position off the board.
    pub fn occ_at(&self, pos: &BoardPosition) -> (r: Option<&OccupantType>)
        requires
            self.wf(),
        ensures
            pos_in(self.size as int, *pos) ==> (r matches Some(o) && *o == self.occ(*pos)),
            !pos_in(self.size as int, *pos) ==> r is None,
    {
        if pos.x < self.size && pos.y < self.size {
            let i = self.index_of(pos);
            Some(&self.occupants[i])
        } else {
            None
        }
    }

    /// The cell one step ahead and its occupant; `None` where that step leaves the board.
    pub fn looking_at(&self, looker_pos: &BoardPosition, looker_facing: &FacingDirection) -> (r:
        Option<(BoardPosition, &OccupantType)>)
        requires
            self.wf(),
        ensures
            match ahead(self.size as int, *looker_pos, *looker_facing) {
                Some(q) => r matches Some((p, o)) && p == q && *o == self.occ(q),
                None => r is None,
            },
    {
        match self.looking_target(looker_pos, looker_facing) {
            Some(pos) => {
                let i = self.index_of(&pos);
                Some((pos, &self.occupants[i]))
            },
            None => None,
        }
    }

    /// The farthest empty cell within `max_steps` behind a player, or `None` where the
    /// very first cell behind it is off the board or taken.
    pub fn max_disengage_position(
        &self,
        pos: &BoardPosition,
        is_facing: &FacingDirection,
        max_steps: u32,
    ) -> (r: Option<BoardPosition>)
        requires
            self.wf(),
            pos_in(self.size as int, *pos),
        ensures
            ({
                let t = retreat(self.size as int, self.occupants@, *pos, *is_facing, max_steps as nat);
                if t == *pos {
                    r is None
                } else {
                    r == Some(t)
                }
            }),
    {
        let disengage_direction = match is_facing {
            FacingDirection::Up => FacingDirection::Down,
            FacingDirection::Left => FacingDirection::Right,
            FacingDirection::Right => FacingDirection::Left,
            FacingDirection::Down => FacingDirection::Up,
        };
        let ghost size = self.size as int;
        let ghost cells = self.occupants@;
        let mut cur_pos = *pos;
        let mut i: u32 = 0;
        while i < max_steps
            invariant
                self.wf(),
                i <= max_steps,
                disengage_direction == opposite(*is_facing),
                pos_in(size, cur_pos),
                size == self.size,
                cells == self.occupants@,
                retreat(size, cells, *pos, *is_facing, max_steps as nat) == retreat(
                    size,
                    cells,
                    cur_pos,
                    *is_facing,
                    (max_steps - i) as nat,
                ),
            ensures
                pos_in(size, cur_pos),
                retreat(size, cells, *pos, *is_facing, max_steps as nat) == cur_pos,
            decreases max_steps - i,
        {
            match self.looking_target(&cur_pos, &disengage_direction) {
                Some(next) => {
                    let i_next = self.index_of(&next);
                    if self.occupants[i_next] == OccupantType::Empty {
                        cur_pos = next;
                    } else {
                        assert(retreat(size, cells, cur_pos, *is_facing, (max_steps - i) as nat)
                            == cur_pos);
                        break ;
                    }
                },
                None => {
                    assert(retreat(size, cells, cur_pos, *is_facing, (max_steps - i) as nat)
                        == cur_pos);
                    break ;
                },
            }
            i = i + 1;
        }
        if cur_pos == *pos {
            None
        } else {
            Some(cur_pos)
        }
    }

    /// The cell a backward move from `coward_pos` leads to, and its occupant.
    pub fn disengage_to(
        &self,
        coward_pos: &BoardPosition,
        coward_facing: &FacingDirection,
        max_steps: u32,
    ) -> (r: Option<(BoardPosition, &OccupantType)>)
        requires
            self.wf(),
            pos_in(self.size as int, *coward_pos),
        ensures
            ({
                let t = retreat(
                    self.size as int,
                    self.occupants@,
                    *coward_pos,
                    *coward_facing,
                    max_steps as nat,
                );
                if t == *coward_pos {
                    r is None
                } else {
                    r matches Some((p, o)) && p == t && *o == self.occ(t)
                }
            }),
    {
        match self.max_disengage_position(coward_pos, coward_facing, max_steps) {
            Some(dpos) => {
                proof {
                    lemma_retreat_on_board(
                        self.size as int,
                        self.occupants@,
                        *coward_pos,
                        *coward_facing,
                        max_steps as nat,
                    );
                }
                let i = self.index_of(&dpos);
                Some((dpos, &self.occupants[i]))
            },
            None => None,
        }
    }

    /// The occupant of a cell, to be changed in place; `None` for a position off the board.
    pub fn occ_at_mut(&mut self, pos: &BoardPosition) -> (r: Option<&mut OccupantType>)
        requires
            old(self).wf(),
        ensures
            pos_in(old(self).size as int, *pos) ==> (r matches Some(o) && *o == old(self).occ(*pos)
                && final(self).size == old(self).size
                && final(self).occupants@ == old(self).occupants@.update(
                cell_index(old(self).size as int, *pos),
                *final(o),
            )),
            !pos_in(old(self).size as int, *pos) ==> (r is None && *final(self) == *old(self)),
    {
        if pos.x < self.size && pos.y < self.size {
            let i = self.index_of(pos);
            Some(&mut self.occupants[i])
        } else {
            None
        }
    }

    /// The cell one step ahead and its occupant, to be changed in place; `None` where that
    /// step leaves the board.
    pub fn looking_at_mut(
        &mut self,
        looker_pos: &BoardPosition,
        looker_facing: &FacingDirection,
    ) -> (r: Option<(BoardPosition, &mut OccupantType)>)
        requires
            old(self).wf(),
        ensures
            match ahead(old(self).size as int, *looker_pos, *looker_facing) {
                Some(q) => r matches Some((p, o)) && p == q && *o == old(self).occ(q)
                    && final(self).size == old(self).size
                    && final(self).occupants@ == old(self).occupants@.update(
                    cell_index(old(self).size as int, q),
                    *final(o),
                ),
                None => r is None && *final(self) == *old(self),
            },
    {
        match self.looking_target(looker_pos, looker_facing) {
            Some(pos) => {
                let i = self.index_of(&pos);
                Some((pos, &mut self.occupants[i]))
            },
            None => None,
        }
    }

    /// The cell a backward move from `coward_pos` leads to and its occupant, to be changed
    /// in place; `None` where the player cannot back away at all.
    pub fn disengage_to_mut(
        &mut self,
        coward_pos: &BoardPosition,
        coward_facing: &FacingDirection,
        max_steps: u32,
    ) -> (r: Option<(BoardPosition, &mut OccupantType)>)
        requires
            old(self).wf(),
            pos_in(old(self).size as int, *coward_pos),
        ensures
            ({
                let t = retreat(
                    old(self).size as int,
                    old(self).occupants@,
                    *coward_pos,
                    *coward_facing,
                    max_steps as nat,
                );
                if t == *coward_pos {
                    r is None && *final(self) == *old(self)
                } else {
                    r matches Some((p, o)) && p == t && *o == old(self).occ(t) && final(self).size
                        == old(self).size && final(self).occupants@ == old(self).occupants@.update(
                        cell_index(old(self).size as int, t),
                        *final(o),
                    )
                }
            }),
    {
        match self.max_disengage_position(coward_pos, coward_facing, max_steps) {
            Some(dpos) => {
                proof {
                    lemma_retreat_on_board(
                        self.size as int,
                        self.occupants@,
                        *coward_pos,
                        *coward_facing,
                        max_steps as nat,
                    );
                }
                let i = self.index_of(&dpos);
                Some((dpos, &mut self.occupants[i]))
            },
            None => None,
        }
    }

    /// Writes an occupant into a cell; a position off the board leaves the board as it was.
    pub fn add_occ(&mut self, pos: BoardPosition, occ: OccupantType)
        requires
            old(self).wf(),
        ensures
            final(self).wf(),
            final(self).size == old(self).size,
            pos_in(old(self).size as int, pos) ==> final(self).occupants@ == old(
                self,
            ).occupants@.update(cell_index(old(self).size as int, pos), occ),
            !pos_in(old(self).size as int, pos) ==> *final(self) == *old(self),
    {
        if pos.x < self.size && pos.y < self.size {
            let i = self.index_of(&pos);
            self.occupants.set(i, occ);
        }
    }
}

/// A retreat never leaves the board.
pub proof fn lemma_retreat_on_board(
    size: int,
    cells: Seq<OccupantType>,
    p: BoardPosition,
    d: FacingDirection,
    n: nat,
)
    requires
        pos_in(size, p),
    ensures
        pos_in(size, retreat(size, cells, p, d, n)),
    decreases n,
{
    if n > 0 {
        match ahead(size, p, opposite(d)) {
            Some(q) => {
                if occ_in(size, cells, q) == OccupantType::Empty {
                    lemma_retreat_on_board(size, cells, q, d, (n - 1) as nat);
                }
            },
            None => {},
        }
    }
}

/// The cells that a straight line of sight covers, nearest first, stopping at the edge.
pub fn get_los_tiles(
    scanner_pos: &BoardPosition,
    scanner_facing: &FacingDirection,
    scanner_los: &LineOfSight,
    board: &Board,
) -> (r: Vec<BoardPosition>)
    requires
        board.wf(),
        pos_in(board.size as int, *scanner_pos),
    ensures
        r@ == los_tiles(board.size as int, *scanner_pos, *scanner_facing, scanner_los.length as int),
{
    let ghost size = board.size as int;
    let ghost p = *scanner_pos;
    let ghost d = *scanner_facing;
    let mut los_tiles_v: Vec<BoardPosition> = Vec::new();
    let mut pos_index = *scanner_pos;
    let mut i: u32 = 0;
    while i < scanner_los.length
        invariant
            board.wf(),
            size == board.size,
            pos_in(size, p),
            i <= scanner_los.length,
            i <= room(size, p, d),
            pos_index == steps_from(p, d, i as int),
            d == *scanner_facing,
            los_tiles_v@ == Seq::new(i as nat, |k: int| steps_from(p, d, k + 1)),
        ensures
            i == scanner_los.length || i == room(size, p, d),
            i <= scanner_los.length,
            i <= room(size, p, d),
            los_tiles_v@ == Seq::new(i as nat, |k: int| steps_from(p, d, k + 1)),
        decreases scanner_los.length - i,
    {
        match board.looking_target(&pos_index, scanner_facing) {
            Some(pos) => {
                los_tiles_v.push(pos);
                pos_index = pos;
            },
            None => {
                assert(i as int == room(size, p, d));
                break ;
            },
        }
        i = i + 1;
        assert(los_tiles_v@ =~= Seq::new(i as nat, |k: int| steps_from(p, d, k + 1)));
    }
    assert(los_tiles_v@ =~= los_tiles(size, p, d, scanner_los.length as int));
    los_tiles_v
}

/// The first occupant that is not empty on the given cells, in order.
pub fn first_occupant(board: &Board, tiles: &Vec<BoardPosition>) -> (r: Option<OccupantType>)
    requires
        board.wf(),
        forall|k: int| 0 <= k < tiles@.len() ==> pos_in(board.size as int, #[trigger] tiles@[k]),
    ensures
        r == first_seen(board.size as int, board.occupants@, tiles@),
{
    let ghost size = board.size as int;
    let ghost cells = board.occupants@;
    let mut k: usize = 0;
    assert(tiles@.subrange(0, tiles@.len() as int) =~= tiles@);
    while k < tiles.len()
        invariant
            board.wf(),
            size == board.size,
            cells == board.occupants@,
            k <= tiles@.len(),
            forall|j: int| 0 <= j < tiles@.len() ==> pos_in(size, #[trigger] tiles@[j]),
            first_seen(size, cells, tiles@) == first_seen(size, cells, tiles@.subrange(k as int, tiles@.len() as int)),
        decreases tiles@.len() - k,
    {
        let i = board.index_of(&tiles[k]);
        let occ = board.occupants[i];
        assert(tiles@.subrange(k as int, tiles@.len() as int)[0] == tiles@[k as int]);
        if occ != OccupantType::Empty {
            return Some(occ);
        }
        assert(tiles@.subrange(k as int, tiles@.len() as int).drop_first() =~= tiles@.subrange(
            k + 1,
            tiles@.len() as int,
        ));
        k = k + 1;
    }
    None
}

} // verus!
