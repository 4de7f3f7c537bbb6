use life_grid::grid::{CellOp, Grid, RunMode};

fn grid_with(rows: usize, cols: usize, live: &[(usize, usize)]) -> Grid {
    let mut g = Grid::new(rows, cols);
    for &(r, c) in live {
        g.set_cell_state(r, c, CellOp::Resurrect);
    }
    g
}

fn snapshot(g: &Grid) -> Vec<Vec<bool>> {
    let mut out = Vec::new();
    for i in 0..g.rows() {
        let mut row = Vec::new();
        for j in 0..g.cols() {
            row.push(g.is_alive(i, j));
        }
        out.push(row);
    }
    out
}

fn count_alive(g: &Grid) -> usize {
    let mut n = 0;
    for i in 0..g.rows() {
        for j in 0..g.cols() {
            if g.is_alive(i, j) {
                n += 1;
            }
        }
    }
    n
}

#[test]
fn new_grid_has_exact_dims_and_is_dead() {
    let g = Grid::new(4, 7);
    assert_eq!(g.rows(), 4);
    assert_eq!(g.cols(), 7);
    assert!(g.is_rectangular());
    assert_eq!(count_alive(&g), 0);
}

#[test]
fn step_of_all_dead_grid_is_all_dead() {
    let g = Grid::new(6, 6);
    let next = g.step();
    assert_eq!(next.rows(), 6);
    assert_eq!(next.cols(), 6);
    assert_eq!(count_alive(&next), 0);
}

#[test]
fn dead_cell_with_three_neighbors_is_born() {
    // three live cells around the dead center (2, 2)
    let g = grid_with(5, 5, &[(1, 1), (1, 3), (3, 2)]);
    let next = g.step();
    assert!(next.is_alive(2, 2));
}

#[test]
fn live_cell_with_two_or_three_neighbors_survives() {
    // (2, 2) is alive with exactly two live neighbors
    let two = grid_with(5, 5, &[(2, 2), (1, 1), (3, 3)]);
    assert!(two.step().is_alive(2, 2));
    // (2, 2) is alive with exactly three live neighbors
    let three = grid_with(5, 5, &[(2, 2), (1, 1), (3, 3), (1, 3)]);
    assert!(three.step().is_alive(2, 2));
}

#[test]
fn live_cell_with_few_or_many_neighbors_dies() {
    // a lone cell starves
    let lone = grid_with(5, 5, &[(2, 2)]);
    assert!(!lone.step().is_alive(2, 2));
    // one neighbor still starves
    let one = grid_with(5, 5, &[(2, 2), (2, 3)]);
    assert!(!one.step().is_alive(2, 2));
    // four neighbors overcrowd
    let four = grid_with(5, 5, &[(2, 2), (1, 1), (1, 3), (3, 1), (3, 3)]);
    assert!(!four.step().is_alive(2, 2));
    // eight neighbors overcrowd
    let eight = grid_with(
        5,
        5,
        &[
            (2, 2),
            (1, 1),
            (1, 2),
            (1, 3),
            (2, 1),
            (2, 3),
            (3, 1),
            (3, 2),
            (3, 3),
        ],
    );
    assert!(!eight.step().is_alive(2, 2));
}

#[test]
fn neighbor_counts_respect_the_boundary() {
    // every cell alive: the count at each position equals the number of
    // on-grid neighboring positions
    let mut g = Grid::new(3, 3);
    for i in 0..3 {
        for j in 0..3 {
            g.set_cell_state(i, j, CellOp::Resurrect);
        }
    }
    assert_eq!(g.count_live_neighbors(0, 0), 3); // corner
    assert_eq!(g.count_live_neighbors(0, 2), 3); // corner
    assert_eq!(g.count_live_neighbors(2, 0), 3); // corner
    assert_eq!(g.count_live_neighbors(2, 2), 3); // corner
    assert_eq!(g.count_live_neighbors(0, 1), 5); // edge
    assert_eq!(g.count_live_neighbors(1, 0), 5); // edge
    assert_eq!(g.count_live_neighbors(1, 2), 5); // edge
    assert_eq!(g.count_live_neighbors(2, 1), 5); // edge
    assert_eq!(g.count_live_neighbors(1, 1), 8); // interior
}

#[test]
fn resize_reports_exact_requested_dims() {
    let mut g = Grid::new(3, 3);
    g.resize(7, 11);
    assert_eq!(g.rows(), 7);
    assert_eq!(g.cols(), 11);
    assert!(g.is_rectangular());
    g.resize(2, 5);
    assert_eq!(g.rows(), 2);
    assert_eq!(g.cols(), 5);
    assert!(g.is_rectangular());
}

#[test]
fn resize_grow_preserves_old_cells_and_adds_dead_ones() {
    let g0 = grid_with(3, 3, &[(0, 0), (1, 2), (2, 1)]);
    let before = snapshot(&g0);
    let mut g = g0;
    g.resize(5, 6);
    for i in 0..5 {
        for j in 0..6 {
            if i < 3 && j < 3 {
                assert_eq!(g.is_alive(i, j), before[i][j]);
            } else {
                assert!(!g.is_alive(i, j));
            }
        }
    }
}

#[test]
fn resize_shrink_truncates() {
    let g0 = grid_with(4, 4, &[(0, 1), (3, 3), (1, 0)]);
    let before = snapshot(&g0);
    let mut g = g0;
    g.resize(2, 2);
    assert_eq!(g.rows(), 2);
    assert_eq!(g.cols(), 2);
    for i in 0..2 {
        for j in 0..2 {
            assert_eq!(g.is_alive(i, j), before[i][j]);
        }
    }
}

#[test]
fn clear_then_steps_stay_all_dead() {
    let mut g = grid_with(5, 5, &[(2, 1), (2, 2), (2, 3), (0, 0)]);
    g.clear();
    assert_eq!(count_alive(&g), 0);
    for _ in 0..10 {
        g = g.step();
        assert_eq!(count_alive(&g), 0);
    }
    assert_eq!(g.rows(), 5);
    assert_eq!(g.cols(), 5);
}

#[test]
fn set_cell_out_of_bounds_is_a_no_op() {
    let g0 = grid_with(3, 4, &[(0, 0), (2, 3), (1, 1)]);
    let before = snapshot(&g0);
    let mut g = g0;
    g.set_cell_state(3, 0, CellOp::Toggle);
    g.set_cell_state(0, 4, CellOp::Resurrect);
    g.set_cell_state(99, 99, CellOp::Kill);
    assert_eq!(snapshot(&g), before);
}

#[test]
fn set_cell_applies_each_operation() {
    let mut g = Grid::new(3, 3);
    g.set_cell_state(1, 1, CellOp::Toggle);
    assert!(g.is_alive(1, 1));
    g.set_cell_state(1, 1, CellOp::Toggle);
    assert!(!g.is_alive(1, 1));
    g.set_cell_state(0, 2, CellOp::Resurrect);
    assert!(g.is_alive(0, 2));
    g.set_cell_state(0, 2, CellOp::Kill);
    assert!(!g.is_alive(0, 2));
    // all other cells stay dead
    assert_eq!(count_alive(&g), 0);
}

#[test]
fn tick_paused_leaves_grid_unchanged() {
    let g = grid_with(5, 5, &[(2, 2)]);
    let before = snapshot(&g);
    let after = g.tick(RunMode::Paused);
    assert_eq!(snapshot(&after), before);
}

#[test]
fn tick_running_advances_one_generation() {
    // a lone live cell dies after one running tick
    let g = grid_with(5, 5, &[(2, 2)]);
    let after = g.tick(RunMode::Running);
    assert_eq!(count_alive(&after), 0);
}

#[test]
fn degenerate_grids_are_handled() {
    let g = Grid::new(0, 0);
    assert_eq!(g.rows(), 0);
    assert_eq!(g.cols(), 0);
    assert!(g.is_rectangular());
    let next = g.step();
    assert_eq!(next.rows(), 0);

    let mut one = Grid::new(1, 1);
    one.set_cell_state(0, 0, CellOp::Resurrect);
    let next = one.step();
    // a lone cell on a 1 by 1 grid has no neighbors and dies
    assert!(!next.is_alive(0, 0));
}
