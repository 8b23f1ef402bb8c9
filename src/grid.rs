use vstd::prelude::*;
use crate::tile::Tile;

verus! {

/// The largest side length a grid may have.
pub const MAX_SIZE: usize = 65535;

/// The place of cell `(col, row)` in the row-by-row sequence of cells of a
/// grid of side `n`.
pub open spec fn cell_index(n: nat, col: nat, row: nat) -> nat {
    row * n + col
}

/// How many tiles of `s` satisfy `p`.
pub open spec fn count_where(s: Seq<Tile>, p: spec_fn(Tile) -> bool) -> nat
    decreases s.len(),
{
    if s.len() == 0 {
        0
    } else {
        count_where(s.drop_last(), p) + if p(s.last()) {
            1nat
        } else {
            0nat
        }
    }
}

/// The number of boxes, on ground or on a target.
pub open spec fn box_count(s: Seq<Tile>) -> nat {
    count_where(s, |t: Tile| t.is_box())
}

/// The number of cells that show the player.
pub open spec fn player_count(s: Seq<Tile>) -> nat {
    count_where(s, |t: Tile| t.is_player())
}

/// No cell holds a box that is off its target.
pub open spec fn no_loose_box(s: Seq<Tile>) -> bool {
    forall|i: int| 0 <= i < s.len() ==> s[i] != Tile::Box
}

/// Replacing one tile changes the count by what left and what came.
pub proof fn lemma_count_update(s: Seq<Tile>, i: int, v: Tile, p: spec_fn(Tile) -> bool)
    requires
        0 <= i < s.len(),
    ensures
        count_where(s.update(i, v), p) == count_where(s, p) - (if p(s[i]) {
            1int
        } else {
            0int
        }) + (if p(v) {
            1int
        } else {
            0int
        }),
    decreases s.len(),
{
    let u = s.update(i, v);
    if i == s.len() - 1 {
        assert(u.drop_last() =~= s.drop_last());
    } else {
        assert(u.drop_last() =~= s.drop_last().update(i, v));
        lemma_count_update(s.drop_last(), i, v, p);
    }
}

/// A cell within the grid has its place within the sequence of cells.
pub proof fn lemma_cell_index_bound(n: nat, col: nat, row: nat)
    requires
        col < n,
        row < n,
        n <= MAX_SIZE,
    ensures
        cell_index(n, col, row) < n * n,
        n * n <= MAX_SIZE * MAX_SIZE,
{
    assert(row * n + col < n * n) by (nonlinear_arith)
        requires
            col < n,
            row < n,
    ;
    assert(n * n <= MAX_SIZE * MAX_SIZE) by (nonlinear_arith)
        requires
            n <= MAX_SIZE,
    ;
}

/// A square grid of tiles, stored row by row from the bottom row up.
pub struct Grid {
    pub size: usize,
    pub cells: Vec<Tile>,
}

impl Grid {
    pub open spec fn wf(&self) -> bool {
        &&& 0 < self.size <= MAX_SIZE
        &&& self.cells@.len() == self.size * self.size
    }

    /// The tile at `(col, row)`.
    pub open spec fn at(&self, col: nat, row: nat) -> Tile {
        self.cells@[cell_index(self.size as nat, col, row) as int]
    }

    /// A grid of side `size` whose every cell is `Blank`.
    pub fn blank(size: usize) -> (r: Grid)
        requires
            0 < size <= MAX_SIZE,
        ensures
            r.wf(),
            r.size == size,
            forall|i: int| 0 <= i < r.cells@.len() ==> r.cells@[i] == Tile::Blank,
    {
        assert(size * size <= MAX_SIZE * MAX_SIZE) by (nonlinear_arith)
            requires
                size <= MAX_SIZE,
        ;
        let total: usize = size * size;
        let mut cells: Vec<Tile> = Vec::new();
        while cells.len() < total
            invariant
                cells@.len() <= total,
                forall|i: int| 0 <= i < cells@.len() ==> cells@[i] == Tile::Blank,
            decreases total - cells@.len(),
        {
            cells.push(Tile::Blank);
        }
        Grid { size, cells }
    }

    /// The place of `(col, row)` in `cells`.
    pub fn index_of(&self, col: usize, row: usize) -> (r: usize)
        requires
            self.wf(),
            col < self.size,
            row < self.size,
        ensures
            r == cell_index(self.size as nat, col as nat, row as nat),
            r < self.cells@.len(),
    {
        proof {
            lemma_cell_index_bound(self.size as nat, col as nat, row as nat);
            assert(row * self.size <= row * self.size + col);
            assert(row * self.size + col < MAX_SIZE * MAX_SIZE);
        }
        row * self.size + col
    }

    pub fn get(&self, col: usize, row: usize) -> (r: Tile)
        requires
            self.wf(),
            col < self.size,
            row < self.size,
        ensures
            r == self.at(col as nat, row as nat),
    {
        let i = self.index_of(col, row);
        self.cells[i]
    }

    /// The number of cells that show the player.
    pub fn count_players(&self) -> (r: usize)
        requires
            self.wf(),
        ensures
            r == player_count(self.cells@),
    {
        let ghost p = |t: Tile| t.is_player();
        let mut r: usize = 0;
        let mut i: usize = 0;
        while i < self.cells.len()
            invariant
                i <= self.cells@.len(),
                r <= i,
                r == count_where(self.cells@.subrange(0, i as int), p),
                p == (|t: Tile| t.is_player()),
            decreases self.cells@.len() - i,
        {
            assert(self.cells@.subrange(0, i + 1).drop_last() =~= self.cells@.subrange(0, i as int));
            if self.cells[i].is_player_tile() {
                r = r + 1;
            }
            i = i + 1;
        }
        assert(self.cells@.subrange(0, i as int) =~= self.cells@);
        r
    }

    /// Whether no cell holds a box that is off its target.
    pub fn is_solved(&self) -> (r: bool)
        ensures
            r == no_loose_box(self.cells@),
    {
        let mut i: usize = 0;
        while i < self.cells.len()
            invariant
                i <= self.cells@.len(),
                forall|k: int| 0 <= k < i ==> self.cells@[k] != Tile::Box,
            decreases self.cells@.len() - i,
        {
            if self.cells[i] == Tile::Box {
                return false;
            }
            i = i + 1;
        }
        true
    }
}

} // verus!
