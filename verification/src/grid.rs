//! The grid engine: a rectangular, runtime-sized collection of cells with
//! resize, single-cell mutation, clear, and the generation step.

use vstd::prelude::*;

use crate::cell::Cell;
use crate::rules::{all_dead, is_rect, neighbor_count, next_state, step_spec};

verus! {

/// The single-cell mutation requested by the caller: flip, kill, or
/// resurrect the addressed cell.
#[derive(Clone, Copy, Debug, PartialEq, Eq, Structural)]
pub enum CellOp {
    Toggle,
    Kill,
    Resurrect,
}

/// What a `CellOp` does to one cell's state.
pub open spec fn apply_op(op: CellOp, alive: bool) -> bool {
    match op {
        CellOp::Toggle => !alive,
        CellOp::Kill => false,
        CellOp::Resurrect => true,
    }
}

/// Whether the control loop is currently simulating. The engine itself is
/// stateless with respect to scheduling: the loop owns this state and passes
/// it into `tick`.
#[derive(Clone, Copy, Debug, PartialEq, Eq, Structural)]
pub enum RunMode {
    Paused,
    Running,
}

/// A bounded two-dimensional Life grid. Rows and columns are chosen at
/// runtime; every row holds exactly the same number of cells (the
/// rectangularity invariant, `wf`).
pub struct Grid {
    cells: Vec<Vec<Cell>>,
}

impl View for Grid {
    type V = Seq<Seq<bool>>;

    /// The grid as its mathematical model: row `i`, column `j` is `true`
    /// exactly when the cell there is alive.
    closed spec fn view(&self) -> Seq<Seq<bool>> {
        Seq::new(
            self.cells@.len(),
            |i: int| Seq::new(self.cells@[i]@.len(), |j: int| self.cells@[i]@[j].spec_alive()),
        )
    }
}

impl Grid {
    /// The number of rows.
    pub open spec fn spec_rows(self) -> int {
        self@.len() as int
    }

    /// The number of columns: the length of the first row, or 0 for a grid
    /// with no rows.
    pub open spec fn spec_cols(self) -> int {
        if self@.len() == 0 {
            0int
        } else {
            self@[0].len() as int
        }
    }

    /// The rectangularity invariant: every row has `spec_cols` cells.
    pub open spec fn wf(self) -> bool {
        is_rect(self@, self.spec_rows(), self.spec_cols())
    }

    /// Ties the model's shape to the underlying vectors: same row count, and
    /// row by row the same length.
    proof fn lemma_shape(&self)
        ensures
            self.cells@.len() == self@.len(),
            forall|r: int|
                0 <= r < self@.len() ==> (#[trigger] self.cells@[r])@.len() == self@[r].len(),
            self.wf() ==> forall|r: int|
                0 <= r < self@.len() ==> (#[trigger] self.cells@[r])@.len() as int
                    == self.spec_cols(),
    {
        assert forall|r: int| 0 <= r < self@.len() implies (#[trigger] self.cells@[r])@.len()
            == self@[r].len() by {
            assert(self@[r].len() == self.cells@[r]@.len());
        }
        if self.wf() {
            assert forall|r: int| 0 <= r < self@.len() implies (#[trigger] self.cells@[r])@.len()
                as int == self.spec_cols() by {
                assert(self@[r].len() == self.spec_cols());
            }
        }
    }

    /// Constructs an all-dead grid of exactly `rows` by `cols` cells.
    pub fn new(rows: usize, cols: usize) -> (g: Grid)
        ensures
            g.wf(),
            is_rect(g@, rows as int, cols as int),
            rows > 0 ==> g.spec_cols() == cols,
            all_dead(g@),
    {
        let mut cells: Vec<Vec<Cell>> = Vec::new();
        let mut i: usize = 0;
        while i < rows
            invariant
                i <= rows,
                cells@.len() == i,
                forall|r: int| 0 <= r < i ==> (#[trigger] cells@[r])@.len() == cols,
                forall|r: int, c: int|
                    0 <= r < i && 0 <= c < cols ==> !(#[trigger] cells@[r]@[c]).spec_alive(),
            decreases rows - i,
        {
            let mut row: Vec<Cell> = Vec::new();
            let mut j: usize = 0;
            while j < cols
                invariant
                    j <= cols,
                    row@.len() == j,
                    forall|c: int| 0 <= c < j ==> !(#[trigger] row@[c]).spec_alive(),
                decreases cols - j,
            {
                row.push(Cell::new(false));
                j = j + 1;
            }
            cells.push(row);
            i = i + 1;
        }
        Grid { cells }
    }

    /// The number of rows.
    pub fn rows(&self) -> (r: usize)
        ensures
            r as int == self.spec_rows(),
    {
        self.cells.len()
    }

    /// The number of columns.
    pub fn cols(&self) -> (c: usize)
        requires
            self.wf(),
        ensures
            c as int == self.spec_cols(),
    {
        if self.cells.len() == 0 {
            0
        } else {
            self.cells[0].len()
        }
    }

    /// Whether the cell at `(row, col)` is alive. Read-only access for the
    /// renderer; coordinates must be on the grid.
    pub fn is_alive(&self, row: usize, col: usize) -> (r: bool)
        requires
            row < self@.len(),
            col < self@[row as int].len(),
        ensures
            r == self@[row as int][col as int],
    {
        self.cells[row][col].is_alive()
    }

    /// Applies `op` to the cell at `(row, col)` if both coordinates are on
    /// the grid; out-of-bounds coordinates are silently ignored, leaving the
    /// grid unchanged.
    pub fn set_cell_state(&mut self, row: usize, col: usize, op: CellOp)
        requires
            old(self).wf(),
        ensures
            final(self).wf(),
            final(self).spec_rows() == old(self).spec_rows(),
            final(self).spec_cols() == old(self).spec_cols(),
            row < old(self).spec_rows() && col < old(self).spec_cols() ==> final(self)@ == old(
                self,
            )@.update(
                row as int,
                old(self)@[row as int].update(
                    col as int,
                    apply_op(op, old(self)@[row as int][col as int]),
                ),
            ),
            !(row < old(self).spec_rows() && col < old(self).spec_cols()) ==> final(self)@ == old(
                self,
            )@,
    {
        let ghost pre = *self;
        if row < self.cells.len() {
            if col < self.cells[row].len() {
                let was_alive = self.cells[row][col].is_alive();
                let next = match op {
                    CellOp::Toggle => Cell::new(!was_alive),
                    CellOp::Kill => Cell::new(false),
                    CellOp::Resurrect => Cell::new(true),
                };
                self.cells[row][col] = next;
                proof {
                    assert(self@ =~~= pre@.update(
                        row as int,
                        pre@[row as int].update(col as int, apply_op(op, pre@[row as int][col as int])),
                    ));
                }
            }
        }
    }

    /// Kills every cell in the grid, keeping its dimensions. Used by the
    /// reset command.
    pub fn clear(&mut self)
        requires
            old(self).wf(),
        ensures
            final(self).wf(),
            final(self).spec_rows() == old(self).spec_rows(),
            final(self).spec_cols() == old(self).spec_cols(),
            all_dead(final(self)@),
    {
        let rows = self.cells.len();
        let mut i: usize = 0;
        while i < rows
            invariant
                i <= rows,
                self.wf(),
                rows as int == self.spec_rows(),
                self.spec_rows() == old(self).spec_rows(),
                self.spec_cols() == old(self).spec_cols(),
                forall|r: int, c: int|
                    0 <= r < i && 0 <= c < self.spec_cols() ==> !(#[trigger] self@[r][c]),
            decreases rows - i,
        {
            proof {
                self.lemma_shape();
            }
            let cols = self.cells[i].len();
            let mut j: usize = 0;
            while j < cols
                invariant
                    i < rows,
                    j <= cols,
                    self.wf(),
                    rows as int == self.spec_rows(),
                    cols as int == self.spec_cols(),
                    self.spec_rows() == old(self).spec_rows(),
                    self.spec_cols() == old(self).spec_cols(),
                    forall|r: int, c: int|
                        0 <= r < i && 0 <= c < self.spec_cols() ==> !(#[trigger] self@[r][c]),
                    forall|c: int| 0 <= c < j ==> !(#[trigger] self@[i as int][c]),
                decreases cols - j,
            {
                proof {
                    self.lemma_shape();
                }
                let ghost pre = *self;
                self.cells[i][j] = Cell::new(false);
                proof {
                    self.lemma_shape();
                    assert(self@ =~~= pre@.update(
                        i as int,
                        pre@[i as int].update(j as int, false),
                    ));
                }
                j = j + 1;
            }
            i = i + 1;
        }
    }

    /// The number of live cells among the on-grid Moore neighbors of
    /// `(row, col)`: the heart of the generation rule.
    pub fn count_live_neighbors(&self, row: usize, col: usize) -> (n: u8)
        requires
            self.wf(),
            row < self.spec_rows(),
            col < self.spec_cols(),
        ensures
            n as int == neighbor_count(self@, row as int, col as int),
    {
        proof {
            self.lemma_shape();
        }
        let rows = self.cells.len();
        let cols = self.cells[row].len();
        let mut n: u8 = 0;
        if row > 0 {
            if col > 0 && self.cells[row - 1][col - 1].is_alive() {
                n = n + 1;
            }
            if self.cells[row - 1][col].is_alive() {
                n = n + 1;
            }
            if col + 1 < cols && self.cells[row - 1][col + 1].is_alive() {
                n = n + 1;
            }
        }
        if col > 0 && self.cells[row][col - 1].is_alive() {
            n = n + 1;
        }
        if col + 1 < cols && self.cells[row][col + 1].is_alive() {
            n = n + 1;
        }
        if row + 1 < rows {
            if col > 0 && self.cells[row + 1][col - 1].is_alive() {
                n = n + 1;
            }
            if self.cells[row + 1][col].is_alive() {
                n = n + 1;
            }
            if col + 1 < cols && self.cells[row + 1][col + 1].is_alive() {
                n = n + 1;
            }
        }
        n
    }

    /// Computes the next generation into a fresh grid of identical
    /// dimensions and returns it; the current grid is only read, so every
    /// neighbor count sees one consistent snapshot. The caller replaces its
    /// grid with the result.
    pub fn step(&self) -> (next: Grid)
        requires
            self.wf(),
        ensures
            next.wf(),
            next@ == step_spec(self@),
            next.spec_rows() == self.spec_rows(),
            next.spec_cols() == self.spec_cols(),
    {
        proof {
            self.lemma_shape();
        }
        let rows = self.cells.len();
        let cols = self.cols();
        let mut cells: Vec<Vec<Cell>> = Vec::new();
        let mut i: usize = 0;
        while i < rows
            invariant
                self.wf(),
                rows as int == self.spec_rows(),
                cols as int == self.spec_cols(),
                i <= rows,
                cells@.len() == i,
                forall|r: int| 0 <= r < i ==> (#[trigger] cells@[r])@.len() == cols,
                forall|r: int, c: int|
                    0 <= r < i && 0 <= c < cols ==> (#[trigger] cells@[r]@[c]).spec_alive()
                        == next_state(self@[r][c], neighbor_count(self@, r, c)),
            decreases rows - i,
        {
            let mut next_row: Vec<Cell> = Vec::new();
            let mut j: usize = 0;
            while j < cols
                invariant
                    self.wf(),
                    rows as int == self.spec_rows(),
                    cols as int == self.spec_cols(),
                    i < rows,
                    j <= cols,
                    next_row@.len() == j,
                    forall|c: int|
                        0 <= c < j ==> (#[trigger] next_row@[c]).spec_alive() == next_state(
                            self@[i as int][c],
                            neighbor_count(self@, i as int, c),
                        ),
                decreases cols - j,
            {
                proof {
                    self.lemma_shape();
                }
                let live = self.count_live_neighbors(i, j);
                let next_cell = if self.cells[i][j].is_alive() {
                    Cell::new(2 <= live && live <= 3)
                } else {
                    Cell::new(live == 3)
                };
                next_row.push(next_cell);
                j = j + 1;
            }
            cells.push(next_row);
            i = i + 1;
        }
        let next = Grid { cells };
        proof {
            next.lemma_shape();
            assert(next@ =~~= step_spec(self@));
        }
        next
    }

    /// Adjusts the grid to exactly `target_rows` by `target_cols`: cells
    /// whose coordinates stay in bounds keep their value, and every newly
    /// added cell is dead. The next generation is built into a fresh
    /// collection and swapped in.
    pub fn resize(&mut self, target_rows: usize, target_cols: usize)
        requires
            old(self).wf(),
        ensures
            final(self).wf(),
            is_rect(final(self)@, target_rows as int, target_cols as int),
            forall|i: int, j: int|
                0 <= i < target_rows && 0 <= j < target_cols ==> (#[trigger] final(self)@[i][j])
                    == (i < old(self).spec_rows() && j < old(self).spec_cols() && old(
                    self,
                )@[i][j]),
    {
        proof {
            self.lemma_shape();
        }
        let ghost pre = *self;
        let old_rows = self.cells.len();
        let old_cols = self.cols();
        let mut cells: Vec<Vec<Cell>> = Vec::new();
        let mut i: usize = 0;
        while i < target_rows
            invariant
                pre.wf(),
                *self == pre,
                old_rows as int == pre.spec_rows(),
                old_cols as int == pre.spec_cols(),
                i <= target_rows,
                cells@.len() == i,
                forall|r: int| 0 <= r < i ==> (#[trigger] cells@[r])@.len() == target_cols,
                forall|r: int, c: int|
                    0 <= r < i && 0 <= c < target_cols ==> (#[trigger] cells@[r]@[c]).spec_alive()
                        == (r < pre.spec_rows() && c < pre.spec_cols() && pre@[r][c]),
            decreases target_rows - i,
        {
            let mut row: Vec<Cell> = Vec::new();
            let mut j: usize = 0;
            while j < target_cols
                invariant
                    pre.wf(),
                    *self == pre,
                    old_rows as int == pre.spec_rows(),
                    old_cols as int == pre.spec_cols(),
                    j <= target_cols,
                    row@.len() == j,
                    forall|c: int|
                        0 <= c < j ==> (#[trigger] row@[c]).spec_alive() == (i < pre.spec_rows()
                            && c < pre.spec_cols() && pre@[i as int][c]),
                decreases target_cols - j,
            {
                proof {
                    self.lemma_shape();
                }
                let kept = if i < old_rows && j < old_cols {
                    self.cells[i][j]
                } else {
                    Cell::new(false)
                };
                row.push(kept);
                j = j + 1;
            }
            cells.push(row);
            i = i + 1;
        }
        self.cells = cells;
        proof {
            self.lemma_shape();
        }
    }

    /// One tick of the control loop's schedule: advances one generation when
    /// running, returns the grid unchanged when paused.
    pub fn tick(self, mode: RunMode) -> (next: Grid)
        requires
            self.wf(),
        ensures
            next.wf(),
            next.spec_rows() == self.spec_rows(),
            next.spec_cols() == self.spec_cols(),
            mode == RunMode::Running ==> next@ == step_spec(self@),
            mode == RunMode::Paused ==> next@ == self@,
    {
        match mode {
            RunMode::Running => self.step(),
            RunMode::Paused => self,
        }
    }

    /// Defensive check of the rectangularity invariant: does every row hold
    /// exactly as many cells as the first? A well-formed grid always passes;
    /// the caller may abort if it ever fails.
    pub fn is_rectangular(&self) -> (r: bool)
        ensures
            r == self.wf(),
    {
        proof {
            self.lemma_shape();
        }
        let rows = self.cells.len();
        let cols: usize = if rows == 0 {
            0
        } else {
            self.cells[0].len()
        };
        let mut i: usize = 0;
        while i < rows
            invariant
                rows == self.cells@.len(),
                cols as int == self.spec_cols(),
                i <= rows,
                forall|r: int| 0 <= r < i ==> (#[trigger] self@[r]).len() == cols,
            decreases rows - i,
        {
            proof {
                self.lemma_shape();
            }
            if self.cells[i].len() != cols {
                return false;
            }
            i = i + 1;
        }
        true
    }
}

} // verus!
