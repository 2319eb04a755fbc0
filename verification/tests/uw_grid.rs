use pystamps::uw_grid::{column_major_cells, grid_nodes, uw_grid_layout};

#[test]
fn uw_grid_keeps_occupied_nonzero_cells_in_column_order() {
    let cells = vec![(1usize, 1usize), (2, 1), (1, 2), (1, 2)];
    let layout = uw_grid_layout(&cells, 2, 2, &vec![true, false, true, true]);
    assert_eq!(layout.lin, vec![0, 1, 2, 2]);
    assert_eq!(layout.kept, vec![0, 2]);
    assert_eq!(layout.nzix, vec![true, true, false, false]);
    assert_eq!(layout.ij, vec![(1, 1), (1, 2)]);
}

#[test]
fn uw_grid_cells_are_numbered_column_by_column() {
    assert_eq!(column_major_cells(&vec![(3, 1), (1, 2), (3, 4)], 3, 4), vec![2, 3, 11]);
}

#[test]
fn grid_nodes_count_kept_cells_row_by_row() {
    let nzix = vec![true, true, false, false];
    let nodes = grid_nodes(&nzix, 2, 2, &vec![(1, 1), (2, 1), (1, 2), (3, 1), (0, 1)]);
    assert_eq!(nodes, vec![Some(0), None, Some(1), None, None]);
}
