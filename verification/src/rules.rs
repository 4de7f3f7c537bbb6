//! The mathematical model of the automaton: a generation is a sequence of
//! rows, each a sequence of booleans (`true` = alive). This module defines the
//! Life transition rule over that model and proves its general laws.

use vstd::prelude::*;

verus! {

/// `g` is a rectangular grid with exactly `rows` rows of `cols` cells each.
pub open spec fn is_rect(g: Seq<Seq<bool>>, rows: int, cols: int) -> bool {
    &&& g.len() == rows
    &&& forall|i: int| 0 <= i < rows ==> (#[trigger] g[i]).len() == cols
}

/// All cells of `g` are dead.
pub open spec fn all_dead(g: Seq<Seq<bool>>) -> bool {
    forall|i: int, j: int|
        0 <= i < g.len() && 0 <= j < g[i].len() ==> !(#[trigger] g[i][j])
}

/// 1 if position `(i, j)` is on the grid and alive, else 0. Off-grid
/// positions contribute nothing: the boundary is hard, with no wraparound.
pub open spec fn live_at(g: Seq<Seq<bool>>, i: int, j: int) -> int {
    if 0 <= i < g.len() && 0 <= j < g[i].len() && g[i][j] {
        1int
    } else {
        0int
    }
}

/// The number of live cells among the 8 Moore-neighborhood positions of
/// `(i, j)` that lie on the grid.
pub open spec fn neighbor_count(g: Seq<Seq<bool>>, i: int, j: int) -> int {
    live_at(g, i - 1, j - 1) + live_at(g, i - 1, j) + live_at(g, i - 1, j + 1)
        + live_at(g, i, j - 1) + live_at(g, i, j + 1)
        + live_at(g, i + 1, j - 1) + live_at(g, i + 1, j) + live_at(g, i + 1, j + 1)
}

/// The standard Life rule: a live cell survives with 2 or 3 live neighbors;
/// a dead cell becomes alive with exactly 3; every other cell is dead next.
pub open spec fn next_state(alive: bool, live: int) -> bool {
    if alive {
        2 <= live && live <= 3
    } else {
        live == 3
    }
}

/// The whole next generation: same shape as `g`, every cell rewritten by
/// `next_state` against a single consistent snapshot of `g`.
pub open spec fn step_spec(g: Seq<Seq<bool>>) -> Seq<Seq<bool>> {
    Seq::new(
        g.len(),
        |i: int| Seq::new(g[i].len(), |j: int| next_state(g[i][j], neighbor_count(g, i, j))),
    )
}

/// `n` applications of `step_spec`.
pub open spec fn step_n(g: Seq<Seq<bool>>, n: nat) -> Seq<Seq<bool>>
    decreases n,
{
    if n == 0 {
        g
    } else {
        step_spec(step_n(g, (n - 1) as nat))
    }
}

/// 1 if `(i, j)` is an on-grid position of a `rows` by `cols` grid, else 0.
pub open spec fn pos_in_bounds(rows: int, cols: int, i: int, j: int) -> int {
    if 0 <= i < rows && 0 <= j < cols {
        1int
    } else {
        0int
    }
}

/// How many of the 8 Moore-neighborhood positions of `(i, j)` lie on a
/// `rows` by `cols` grid: 3 at a corner, 5 on an edge, 8 in the interior.
pub open spec fn in_bounds_neighbors(rows: int, cols: int, i: int, j: int) -> int {
    pos_in_bounds(rows, cols, i - 1, j - 1) + pos_in_bounds(rows, cols, i - 1, j)
        + pos_in_bounds(rows, cols, i - 1, j + 1) + pos_in_bounds(rows, cols, i, j - 1)
        + pos_in_bounds(rows, cols, i, j + 1) + pos_in_bounds(rows, cols, i + 1, j - 1)
        + pos_in_bounds(rows, cols, i + 1, j) + pos_in_bounds(rows, cols, i + 1, j + 1)
}

/// The next generation of a rectangular grid is rectangular, with the same
/// dimensions.
pub proof fn lemma_step_preserves_rect(g: Seq<Seq<bool>>, rows: int, cols: int)
    requires
        is_rect(g, rows, cols),
    ensures
        is_rect(step_spec(g), rows, cols),
{
}

/// No spontaneous generation: stepping an all-dead grid yields an all-dead
/// grid.
pub proof fn lemma_step_all_dead(g: Seq<Seq<bool>>)
    requires
        all_dead(g),
    ensures
        all_dead(step_spec(g)),
{
    assert forall|i: int, j: int|
        0 <= i < step_spec(g).len() && 0 <= j < step_spec(g)[i].len() implies !(
    #[trigger] step_spec(g)[i][j]) by {
        assert(neighbor_count(g, i, j) == 0);
    }
}

/// An all-dead grid stays all dead under any number of steps.
pub proof fn lemma_steps_preserve_all_dead(g: Seq<Seq<bool>>, n: nat)
    requires
        all_dead(g),
    ensures
        all_dead(step_n(g, n)),
    decreases n,
{
    if n > 0 {
        lemma_steps_preserve_all_dead(g, (n - 1) as nat);
        lemma_step_all_dead(step_n(g, (n - 1) as nat));
    }
}

/// The fate of one cell under a step, spelled out: three live neighbors make
/// it alive whatever it was; a live cell with two or three live neighbors
/// survives; every other cell is dead in the next generation.
pub proof fn lemma_step_rule(g: Seq<Seq<bool>>, i: int, j: int)
    requires
        0 <= i < g.len(),
        0 <= j < g[i].len(),
    ensures
        neighbor_count(g, i, j) == 3 ==> step_spec(g)[i][j],
        g[i][j] && 2 <= neighbor_count(g, i, j) <= 3 ==> step_spec(g)[i][j],
        g[i][j] && (neighbor_count(g, i, j) < 2 || neighbor_count(g, i, j) > 3) ==> !step_spec(
            g,
        )[i][j],
        !g[i][j] && neighbor_count(g, i, j) != 3 ==> !step_spec(g)[i][j],
{
}

/// A cell's neighbor count never exceeds the number of its on-grid
/// neighboring positions: at most 3 at a corner, 5 on an edge, 8 in the
/// interior.
pub proof fn lemma_neighbor_count_bounds(
    g: Seq<Seq<bool>>,
    rows: int,
    cols: int,
    i: int,
    j: int,
)
    requires
        is_rect(g, rows, cols),
        0 <= i < rows,
        0 <= j < cols,
    ensures
        0 <= neighbor_count(g, i, j),
        neighbor_count(g, i, j) <= in_bounds_neighbors(rows, cols, i, j),
        in_bounds_neighbors(rows, cols, i, j) <= 8,
        rows >= 2 && cols >= 2 && (i == 0 || i == rows - 1) && (j == 0 || j == cols - 1)
            ==> in_bounds_neighbors(rows, cols, i, j) == 3,
        rows >= 2 && cols >= 3 && (i == 0 || i == rows - 1) && 1 <= j < cols - 1
            ==> in_bounds_neighbors(rows, cols, i, j) == 5,
        rows >= 3 && cols >= 2 && 1 <= i < rows - 1 && (j == 0 || j == cols - 1)
            ==> in_bounds_neighbors(rows, cols, i, j) == 5,
        1 <= i < rows - 1 && 1 <= j < cols - 1 ==> in_bounds_neighbors(rows, cols, i, j) == 8,
{
}

} // verus!
