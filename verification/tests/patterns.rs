use life_grid::grid::{CellOp, Grid};

fn grid_with(rows: usize, cols: usize, live: &[(usize, usize)]) -> Grid {
    let mut g = Grid::new(rows, cols);
    for &(r, c) in live {
        g.set_cell_state(r, c, CellOp::Resurrect);
    }
    g
}

fn live_cells(g: &Grid) -> Vec<(usize, usize)> {
    let mut out = Vec::new();
    for i in 0..g.rows() {
        for j in 0..g.cols() {
            if g.is_alive(i, j) {
                out.push((i, j));
            }
        }
    }
    out
}

#[test]
fn blinker_oscillates_with_period_two() {
    // horizontal blinker in row 2 of a 5 by 5 grid
    let g = grid_with(5, 5, &[(2, 1), (2, 2), (2, 3)]);
    let once = g.step();
    // vertical orientation: column 2, rows 1..=3
    assert_eq!(live_cells(&once), vec![(1, 2), (2, 2), (3, 2)]);
    let twice = once.step();
    // back to the horizontal orientation
    assert_eq!(live_cells(&twice), vec![(2, 1), (2, 2), (2, 3)]);
}

#[test]
fn block_is_a_still_life() {
    // 2 by 2 block surrounded by dead cells
    let expected = vec![(1, 1), (1, 2), (2, 1), (2, 2)];
    let mut g = grid_with(4, 4, &expected);
    for _ in 0..5 {
        g = g.step();
        assert_eq!(live_cells(&g), expected);
    }
}

#[test]
fn glider_translates_diagonally() {
    // standard 5-cell glider in the top-left 5 by 5 region of a 10 by 10
    // grid, pointing down-right
    let base = [(0usize, 1usize), (1, 2), (2, 0), (2, 1), (2, 2)];
    let start: Vec<(usize, usize)> = base.iter().map(|&(r, c)| (r + 1, c + 1)).collect();
    let mut g = grid_with(10, 10, &start);
    for _ in 0..4 {
        g = g.step();
    }
    // after 4 generations the same shape reappears translated by (1, 1)
    let expected: Vec<(usize, usize)> = base.iter().map(|&(r, c)| (r + 2, c + 2)).collect();
    assert_eq!(live_cells(&g), expected);
}
