use pystamps::grid::{fold_grid_cells, row_major_cells};

#[test]
fn outermost_cells_fold_into_their_neighbours() {
    let grid = fold_grid_cells(&vec![(1, 1), (3, 2), (2, 3), (3, 1)]);
    assert_eq!(grid.cells, vec![(1, 1), (2, 2), (2, 2), (2, 1)]);
    assert_eq!((grid.n_i, grid.n_j), (2, 2));
    assert_eq!(row_major_cells(&grid.cells, grid.n_i, grid.n_j), vec![0, 3, 3, 2]);
}

#[test]
fn a_single_row_or_column_is_not_folded_away() {
    let grid = fold_grid_cells(&vec![(1, 1), (1, 1)]);
    assert_eq!(grid.cells, vec![(1, 1), (1, 1)]);
    assert_eq!((grid.n_i, grid.n_j), (1, 1));
    let grid = fold_grid_cells(&vec![(1, 1), (1, 2)]);
    assert_eq!(grid.cells, vec![(1, 1), (1, 1)]);
    assert_eq!((grid.n_i, grid.n_j), (1, 1));
}

#[test]
fn empty_grid_has_one_cell() {
    let grid = fold_grid_cells(&vec![]);
    assert!(grid.cells.is_empty());
    assert_eq!((grid.n_i, grid.n_j), (1, 1));
}

#[test]
fn cells_are_numbered_row_by_row() {
    let cells = vec![(1, 1), (1, 4), (2, 1), (3, 4)];
    assert_eq!(row_major_cells(&cells, 3, 4), vec![0, 3, 4, 11]);
}
