use vstd::prelude::*;
use crate::tile::{Tile, Direction};
use crate::grid::{
    Grid, MAX_SIZE, cell_index, box_count, player_count, no_loose_box,
    lemma_count_update, lemma_cell_index_bound,
};
use crate::level::{Level, Position};

verus! {

/// The side of the grid the game is played on by default.
pub const MAP_SIZE: usize = 20;

/// How many levels there are by default.
pub const GAME_LEVEL_COUNT: usize = 50;

/// Whether a level is being played or the next one is awaited.
#[derive(Clone, Copy, Debug, PartialEq, Eq, Structural)]
pub enum Status {
    AwaitingLevelLoad,
    InProgress,
}

/// The state of a game, as a mathematical value.
pub struct GameView {
    pub size: nat,
    pub cells: Seq<Tile>,
    pub col: nat,
    pub row: nat,
    pub under: Tile,
    pub level: nat,
    pub level_count: nat,
    pub status: Status,
    pub pending: Option<Direction>,
    pub dirty: bool,
}

/// The cell one step from `(col, row)` in direction `d`, if it is on the grid.
pub open spec fn neighbor(n: nat, col: nat, row: nat, d: Direction) -> Option<(nat, nat)> {
    let c = col + d.dx();
    let r = row + d.dy();
    if 0 <= c < n && 0 <= r < n {
        Some((c as nat, r as nat))
    } else {
        None
    }
}

/// The level that follows `level`, back to the first after the last.
pub open spec fn next_level(level: nat, level_count: nat) -> nat {
    if level >= level_count {
        1
    } else {
        level + 1
    }
}

impl GameView {
    /// A level is being played: the player stands on the grid, shown by the
    /// one player tile there is, on ground or a target.
    pub open spec fn playing(self) -> bool {
        &&& self.col < self.size
        &&& self.row < self.size
        &&& self.cells[cell_index(self.size, self.col, self.row) as int].is_player()
        &&& player_count(self.cells) == 1
        &&& self.under.is_floor()
    }

    pub open spec fn wf(self) -> bool {
        &&& 0 < self.size <= MAX_SIZE
        &&& self.cells.len() == self.size * self.size
        &&& 1 <= self.level <= self.level_count
        &&& self.status == Status::InProgress ==> self.playing()
    }

    /// The cells, the player's cell and the tile under the player after a
    /// step in direction `d`; `None` where the step is refused.
    pub open spec fn move_result(self, d: Direction) -> Option<(Seq<Tile>, nat, nat, Tile)> {
        let n = self.size;
        let here = cell_index(n, self.col, self.row) as int;
        match neighbor(n, self.col, self.row, d) {
            None => None,
            Some((c1, r1)) => {
                let i1 = cell_index(n, c1, r1) as int;
                let t1 = self.cells[i1];
                if t1.is_floor() {
                    Some((self.cells.update(here, self.under).update(i1, d.player_tile_spec()), c1, r1, t1))
                } else if t1.is_box() {
                    match neighbor(n, c1, r1, d) {
                        None => None,
                        Some((c2, r2)) => {
                            let i2 = cell_index(n, c2, r2) as int;
                            let t2 = self.cells[i2];
                            if t2.is_floor() {
                                Some((
                                    self.cells.update(here, self.under).update(
                                        i1,
                                        d.player_tile_spec(),
                                    ).update(i2, t2.with_box()),
                                    c1,
                                    r1,
                                    t1.without_box(),
                                ))
                            } else {
                                None
                            }
                        },
                    }
                } else {
                    None
                }
            },
        }
    }

    /// `after` is this state once the pending action has been taken.
    pub open spec fn advanced(self, after: GameView) -> bool {
        if self.status != Status::InProgress || self.pending is None {
            after == self
        } else {
            match self.move_result(self.pending->Some_0) {
                None => after == GameView { pending: None, ..self },
                Some((cells, c, r, u)) => {
                    let won = no_loose_box(cells);
                    after == GameView {
                        cells,
                        col: c,
                        row: r,
                        under: u,
                        pending: None,
                        dirty: true,
                        status: if won {
                            Status::AwaitingLevelLoad
                        } else {
                            Status::InProgress
                        },
                        level: if won {
                            next_level(self.level, self.level_count)
                        } else {
                            self.level
                        },
                        ..self
                    }
                },
            }
        }
    }
}

/// How far apart the places of a cell and of its neighbour in direction `d` are.
pub open spec fn index_offset(n: nat, d: Direction) -> int {
    match d {
        Direction::Left => -1,
        Direction::Right => 1,
        Direction::Up => n as int,
        Direction::Down => -n,
    }
}

/// The place of a neighbour differs from the place of its cell by the step.
pub proof fn lemma_neighbor_index(n: nat, col: nat, row: nat, d: Direction)
    requires
        neighbor(n, col, row, d) is Some,
    ensures
        cell_index(n, neighbor(n, col, row, d)->Some_0.0, neighbor(n, col, row, d)->Some_0.1)
            == cell_index(n, col, row) + index_offset(n, d),
{
    let (c1, r1) = neighbor(n, col, row, d)->Some_0;
    if d == Direction::Up {
        assert(r1 == row + 1);
        assert(r1 * n == row * n + n) by (nonlinear_arith)
            requires
                r1 == row + 1,
        ;
    } else if d == Direction::Down {
        assert(r1 + 1 == row);
        assert(r1 * n == row * n - n) by (nonlinear_arith)
            requires
                r1 + 1 == row,
        ;
    }
}


/// A step that is taken keeps the player on the grid, alone and on floor,
/// and keeps every box.
pub proof fn lemma_move_keeps_playing(v: GameView, d: Direction)
    requires
        v.wf(),
        v.playing(),
    ensures
        match v.move_result(d) {
            None => true,
            Some((cells, c, r, u)) => {
                &&& cells.len() == v.cells.len()
                &&& (GameView { cells, col: c, row: r, under: u, ..v }).playing()
                &&& box_count(cells) == box_count(v.cells)
            },
        },
{
    let n = v.size;
    let here = cell_index(n, v.col, v.row) as int;
    lemma_cell_index_bound(n, v.col, v.row);
    let pl = |t: Tile| t.is_player();
    let bx = |t: Tile| t.is_box();
    match neighbor(n, v.col, v.row, d) {
        None => {},
        Some((c1, r1)) => {
            lemma_neighbor_index(n, v.col, v.row, d);
            lemma_cell_index_bound(n, c1, r1);
            let i1 = cell_index(n, c1, r1) as int;
            let t1 = v.cells[i1];
            let s1 = v.cells.update(here, v.under);
            let s2 = s1.update(i1, d.player_tile_spec());
            lemma_count_update(v.cells, here, v.under, pl);
            lemma_count_update(v.cells, here, v.under, bx);
            lemma_count_update(s1, i1, d.player_tile_spec(), pl);
            lemma_count_update(s1, i1, d.player_tile_spec(), bx);
            if t1.is_floor() {
            } else if t1.is_box() {
                match neighbor(n, c1, r1, d) {
                    None => {},
                    Some((c2, r2)) => {
                        lemma_neighbor_index(n, c1, r1, d);
                        lemma_cell_index_bound(n, c2, r2);
                        let i2 = cell_index(n, c2, r2) as int;
                        let t2 = v.cells[i2];
                        if t2.is_floor() {
                            lemma_count_update(s2, i2, t2.with_box(), pl);
                            lemma_count_update(s2, i2, t2.with_box(), bx);
                        }
                    },
                }
            }
        },
    }
}


impl Position {
    /// The cell one step away in direction `d` on a grid of side `n`, if any.
    pub fn neighbor(self, d: Direction, n: usize) -> (r: Option<Position>)
        requires
            self.col < n,
            self.row < n,
        ensures
            r is Some == neighbor(n as nat, self.col as nat, self.row as nat, d) is Some,
            r is Some ==> (r->Some_0.col as nat, r->Some_0.row as nat) == neighbor(
                n as nat,
                self.col as nat,
                self.row as nat,
                d,
            )->Some_0,
    {
        match d {
            Direction::Left => if self.col == 0 {
                None
            } else {
                Some(Position { col: self.col - 1, row: self.row })
            },
            Direction::Right => if self.col + 1 >= n {
                None
            } else {
                Some(Position { col: self.col + 1, row: self.row })
            },
            Direction::Down => if self.row == 0 {
                None
            } else {
                Some(Position { col: self.col, row: self.row - 1 })
            },
            Direction::Up => if self.row + 1 >= n {
                None
            } else {
                Some(Position { col: self.col, row: self.row + 1 })
            },
        }
    }
}

/// One play session: the grid of the current level, where the player stands
/// and on what, which level it is, and the action waiting to be taken.
pub struct Game {
    pub grid: Grid,
    pub position: Position,
    pub under: Tile,
    pub level: usize,
    pub level_count: usize,
    pub status: Status,
    pub pending: Option<Direction>,
    pub dirty: bool,
}

impl View for Game {
    type V = GameView;

    open spec fn view(&self) -> GameView {
        GameView {
            size: self.grid.size as nat,
            cells: self.grid.cells@,
            col: self.position.col as nat,
            row: self.position.row as nat,
            under: self.under,
            level: self.level as nat,
            level_count: self.level_count as nat,
            status: self.status,
            pending: self.pending,
            dirty: self.dirty,
        }
    }
}

impl Game {
    pub open spec fn wf(&self) -> bool {
        self@.wf()
    }

    /// A session on a blank grid of side `size`, at the first of
    /// `level_count` levels, waiting for that level.
    pub fn new(size: usize, level_count: usize) -> (r: Game)
        requires
            0 < size <= MAX_SIZE,
            1 <= level_count,
        ensures
            r.wf(),
            r@.size == size,
            forall|i: int| 0 <= i < r@.cells.len() ==> r@.cells[i] == Tile::Blank,
            r@.col == 0,
            r@.row == 0,
            r@.under == Tile::Ground,
            r@.level == 1,
            r@.level_count == level_count,
            r@.status == Status::AwaitingLevelLoad,
            r@.pending is None,
            r@.dirty,
    {
        Game {
            grid: Grid::blank(size),
            position: Position { col: 0, row: 0 },
            under: Tile::Ground,
            level: 1,
            level_count,
            status: Status::AwaitingLevelLoad,
            pending: None,
            dirty: true,
        }
    }

    /// Starts playing `level`: its grid and start become the game's, the
    /// player stands on ground.
    pub fn initialize(&mut self, level: Level)
        requires
            old(self).wf(),
            level.wf(),
        ensures
            final(self).wf(),
            final(self)@ == (GameView {
                size: level.grid.size as nat,
                cells: level.grid.cells@,
                col: level.start.col as nat,
                row: level.start.row as nat,
                under: Tile::Ground,
                status: Status::InProgress,
                dirty: true,
                ..old(self)@
            }),
            player_count(final(self)@.cells) == 1,
    {
        self.grid = level.grid;
        self.position = level.start;
        self.under = Tile::Ground;
        self.status = Status::InProgress;
        self.dirty = true;
    }

    /// Records `d` as the action to take next, in place of any other; does
    /// nothing while no level is being played.
    pub fn queue_action(&mut self, d: Direction)
        ensures
            final(self)@ == (if old(self)@.status == Status::InProgress {
                GameView { pending: Some(d), ..old(self)@ }
            } else {
                old(self)@
            }),
    {
        if self.status == Status::InProgress {
            self.pending = Some(d);
        }
    }

    /// Moves the player one step in direction `d`, pushing a box if one is in
    /// the way; returns whether the step was taken. A step keeps every box
    /// and leaves exactly one cell showing the player, the player's own.
    pub fn step(&mut self, d: Direction) -> (moved: bool)
        requires
            old(self).wf(),
            old(self)@.playing(),
        ensures
            final(self).grid.wf(),
            final(self)@.playing(),
            box_count(final(self)@.cells) == box_count(old(self)@.cells),
            player_count(final(self)@.cells) == 1,
            match old(self)@.move_result(d) {
                None => !moved && final(self)@ == old(self)@,
                Some((cells, c, r, u)) => moved && final(self)@ == (GameView {
                    cells,
                    col: c,
                    row: r,
                    under: u,
                    dirty: true,
                    ..old(self)@
                }),
            },
    {
        proof {
            lemma_move_keeps_playing(self@, d);
        }
        let n = self.grid.size;
        let here = self.position;
        let next = match here.neighbor(d, n) {
            None => return false,
            Some(p) => p,
        };
        proof {
            lemma_neighbor_index(n as nat, here.col as nat, here.row as nat, d);
        }
        let t1 = self.grid.get(next.col, next.row);
        let i0 = self.grid.index_of(here.col, here.row);
        let i1 = self.grid.index_of(next.col, next.row);
        let u = self.under;
        if t1.is_floor_tile() {
            self.grid.cells.set(i0, u);
            self.grid.cells.set(i1, d.player_tile());
            self.under = t1;
            self.position = next;
            self.dirty = true;
            return true;
        }
        if !t1.is_box_tile() {
            return false;
        }
        let next2 = match next.neighbor(d, n) {
            None => return false,
            Some(p) => p,
        };
        proof {
            lemma_neighbor_index(n as nat, next.col as nat, next.row as nat, d);
        }
        let t2 = self.grid.get(next2.col, next2.row);
        if !t2.is_floor_tile() {
            return false;
        }
        let i2 = self.grid.index_of(next2.col, next2.row);
        self.grid.cells.set(i0, u);
        self.grid.cells.set(i1, d.player_tile());
        if t2 == Tile::Ground {
            self.grid.cells.set(i2, Tile::Box);
        } else {
            self.grid.cells.set(i2, Tile::BoxOnTarget);
        }
        if t1 == Tile::Box {
            self.under = Tile::Ground;
        } else {
            self.under = Tile::Target;
        }
        self.position = next;
        self.dirty = true;
        true
    }

    /// Takes the pending action, if a level is being played and one is
    /// pending, and clears it. After a step that leaves no box off a target
    /// the level is done: the game waits for the next level.
    pub fn advance(&mut self)
        requires
            old(self).wf(),
        ensures
            final(self).wf(),
            old(self)@.advanced(final(self)@),
    {
        if self.status != Status::InProgress {
            return;
        }
        match self.pending {
            None => {},
            Some(d) => {
                self.pending = None;
                proof {
                    lemma_move_keeps_playing(self@, d);
                }
                let moved = self.step(d);
                if moved && self.grid.is_solved() {
                    self.finish_level();
                }
            },
        }
    }

    /// Moves on to the next level, back to the first after the last.
    fn finish_level(&mut self)
        requires
            old(self).wf(),
        ensures
            final(self)@ == (GameView {
                level: next_level(old(self)@.level, old(self)@.level_count),
                status: Status::AwaitingLevelLoad,
                dirty: true,
                ..old(self)@
            }),
    {
        if self.level >= self.level_count {
            self.level = 1;
        } else {
            self.level = self.level + 1;
        }
        self.status = Status::AwaitingLevelLoad;
        self.dirty = true;
    }

    /// Whether no cell holds a box off its target.
    pub fn is_won(&self) -> (r: bool)
        ensures
            r == no_loose_box(self@.cells),
    {
        self.grid.is_solved()
    }

    pub fn is_dirty(&self) -> (r: bool)
        ensures
            r == self@.dirty,
    {
        self.dirty
    }

    /// Acknowledges that the grid has been drawn.
    pub fn clear_dirty(&mut self)
        ensures
            final(self)@ == (GameView { dirty: false, ..old(self)@ }),
    {
        self.dirty = false;
    }

    pub fn current_level_index(&self) -> (r: usize)
        ensures
            r == self@.level,
    {
        self.level
    }

    pub fn status(&self) -> (r: Status)
        ensures
            r == self@.status,
    {
        self.status
    }

    pub fn position(&self) -> (r: Position)
        ensures
            r.col == self@.col,
            r.row == self@.row,
    {
        self.position
    }

    /// The tile the player stands on.
    pub fn under_tile(&self) -> (r: Tile)
        ensures
            r == self@.under,
    {
        self.under
    }

    /// The tile at `(col, row)`.
    pub fn tile_at(&self, col: usize, row: usize) -> (r: Tile)
        requires
            self.wf(),
            col < self@.size,
            row < self@.size,
        ensures
            r == self@.cells[cell_index(self@.size, col as nat, row as nat) as int],
    {
        self.grid.get(col, row)
    }
}

impl Default for Game {
    /// A session on a blank grid of the default side, at the first of the
    /// default number of levels.
    fn default() -> (r: Game)
        ensures
            r.wf(),
            r@.size == MAP_SIZE,
            forall|i: int| 0 <= i < r@.cells.len() ==> r@.cells[i] == Tile::Blank,
            r@.col == 0,
            r@.row == 0,
            r@.under == Tile::Ground,
            r@.level == 1,
            r@.level_count == GAME_LEVEL_COUNT,
            r@.status == Status::AwaitingLevelLoad,
            r@.pending is None,
            r@.dirty,
    {
        Game::new(MAP_SIZE, GAME_LEVEL_COUNT)
    }
}


/// Taking an action never creates or destroys a box: the number of cells
/// holding a box, on ground or on a target, stays the same.
pub proof fn lemma_advance_conserves_boxes(a: GameView, b: GameView)
    requires
        a.wf(),
        a.advanced(b),
    ensures
        box_count(b.cells) == box_count(a.cells),
{
    if a.status == Status::InProgress && a.pending is Some {
        lemma_move_keeps_playing(a, a.pending->Some_0);
    }
}

/// While a level is played, exactly one cell shows the player after an
/// action, and it is the player's cell.
pub proof fn lemma_advance_keeps_one_player(a: GameView, b: GameView)
    requires
        a.wf(),
        a.status == Status::InProgress,
        a.advanced(b),
    ensures
        b.wf(),
        player_count(b.cells) == 1,
        b.playing(),
{
    if a.pending is Some {
        lemma_move_keeps_playing(a, a.pending->Some_0);
    }
}

/// A step off the grid changes neither the cells, nor the player's cell or
/// the tile under it, nor the redraw flag.
pub proof fn lemma_step_off_grid_is_refused(a: GameView, b: GameView, d: Direction)
    requires
        a.wf(),
        a.pending == Some(d),
        neighbor(a.size, a.col, a.row, d) is None,
        a.advanced(b),
    ensures
        b.cells == a.cells,
        b.col == a.col,
        b.row == a.row,
        b.under == a.under,
        b.dirty == a.dirty,
        b.status == a.status,
        b.level == a.level,
{
}

/// Pushing a box against the edge of the grid, or into a cell that is not
/// ground or a target, changes nothing but clearing the pending action.
pub proof fn lemma_blocked_push_is_refused(a: GameView, b: GameView, d: Direction)
    requires
        a.wf(),
        a.status == Status::InProgress,
        a.pending == Some(d),
        neighbor(a.size, a.col, a.row, d) is Some,
        ({
            let (c1, r1) = neighbor(a.size, a.col, a.row, d)->Some_0;
            &&& a.cells[cell_index(a.size, c1, r1) as int].is_box()
            &&& match neighbor(a.size, c1, r1, d) {
                None => true,
                Some((c2, r2)) => !a.cells[cell_index(a.size, c2, r2) as int].is_floor(),
            }
        }),
        a.advanced(b),
    ensures
        b == (GameView { pending: None, ..a }),
{
    let (c1, r1) = neighbor(a.size, a.col, a.row, d)->Some_0;
    lemma_neighbor_index(a.size, a.col, a.row, d);
    lemma_cell_index_bound(a.size, c1, r1);
    lemma_cell_index_bound(a.size, a.col, a.row);
    assert(!a.cells[cell_index(a.size, c1, r1) as int].is_floor());
}

/// Pushing a box onto ground or a target moves the player into the box's
/// cell and the box one cell on; the player's old cell shows what the player
/// stood on, and every other cell keeps its tile.
pub proof fn lemma_clear_push_moves_box(a: GameView, b: GameView, d: Direction)
    requires
        a.wf(),
        a.status == Status::InProgress,
        a.pending == Some(d),
        neighbor(a.size, a.col, a.row, d) is Some,
        ({
            let (c1, r1) = neighbor(a.size, a.col, a.row, d)->Some_0;
            &&& a.cells[cell_index(a.size, c1, r1) as int].is_box()
            &&& neighbor(a.size, c1, r1, d) is Some
            &&& ({
                let (c2, r2) = neighbor(a.size, c1, r1, d)->Some_0;
                a.cells[cell_index(a.size, c2, r2) as int].is_floor()
            })
        }),
        a.advanced(b),
    ensures
        ({
            let (c1, r1) = neighbor(a.size, a.col, a.row, d)->Some_0;
            let (c2, r2) = neighbor(a.size, c1, r1, d)->Some_0;
            let here = cell_index(a.size, a.col, a.row) as int;
            let i1 = cell_index(a.size, c1, r1) as int;
            let i2 = cell_index(a.size, c2, r2) as int;
            &&& b.cells[here] == a.under
            &&& b.cells[i1] == d.player_tile_spec()
            &&& b.cells[i2] == a.cells[i2].with_box()
            &&& b.under == a.cells[i1].without_box()
            &&& b.col == c1
            &&& b.row == r1
            &&& b.dirty
            &&& b.cells.len() == a.cells.len()
            &&& forall|k: int|
                0 <= k < a.cells.len() && k != here && k != i1 && k != i2 ==> b.cells[k]
                    == a.cells[k]
        }),
{
    let (c1, r1) = neighbor(a.size, a.col, a.row, d)->Some_0;
    let (c2, r2) = neighbor(a.size, c1, r1, d)->Some_0;
    lemma_neighbor_index(a.size, a.col, a.row, d);
    lemma_neighbor_index(a.size, c1, r1, d);
    lemma_cell_index_bound(a.size, c1, r1);
    lemma_cell_index_bound(a.size, c2, r2);
    lemma_cell_index_bound(a.size, a.col, a.row);
    assert(!a.cells[cell_index(a.size, c1, r1) as int].is_floor());
}

/// Winning the last level leads back to the first.
pub proof fn lemma_last_level_wraps(a: GameView, b: GameView)
    requires
        a.wf(),
        a.status == Status::InProgress,
        a.level == a.level_count,
        b.status == Status::AwaitingLevelLoad,
        a.advanced(b),
    ensures
        b.level == 1,
{
}

} // verus!
