use pystamps::core_error::CoreError;
use pystamps::graph::{
    edge_id_signed, edge_table, graph_adjacency, insert_edge, validate_connected_graph, validate_one_based_indices,
    validate_stage4_edge_topology, NodeColumns,
};
use pystamps::interp::interp_edges;
use std::collections::{BTreeMap, BTreeSet};

fn stage_error(err: CoreError) -> (u8, String) {
    match err {
        CoreError::NativeStage { stage, message } => (stage, message),
        other => panic!("expected a structured stage error, got {other:?}"),
    }
}

fn table(ends: &[(i64, i64)]) -> NodeColumns {
    NodeColumns { rows: ends.len(), cols: 3, ends: ends.to_vec() }
}

#[test]
fn invalid_edge_topology_returns_structured_stage4_error() {
    let (stage, message) = stage_error(validate_stage4_edge_topology(&[(0, 2)], 2).unwrap_err());
    assert_eq!(stage, 4);
    assert!(message.contains("invalid Stage 4 edge topology"));
    assert_eq!(message, "invalid Stage 4 edge topology at edge 1: (0, 2) for n_nodes=2");
}

#[test]
fn valid_edge_topology_passes_and_loops_are_rejected() {
    assert!(validate_stage4_edge_topology(&[(0, 1), (1, 2)], 3).is_ok());
    let (_, message) = stage_error(validate_stage4_edge_topology(&[(0, 1), (2, 2)], 3).unwrap_err());
    assert_eq!(message, "invalid Stage 4 edge topology at edge 2: (2, 2) for n_nodes=3");
}

#[test]
fn weeded_out_of_bounds_index_returns_structured_stage5_error() {
    let (stage, message) = stage_error(validate_one_based_indices(&[1, 3, 4], 3, "weed1.mat promoted PS indices", 5).unwrap_err());
    assert_eq!(stage, 5);
    assert!(message.contains("out-of-bounds"));
    assert_eq!(message, "weed1.mat promoted PS indices contains out-of-bounds 1-based index 4 at position 3 for n_ps=3");
    let (_, message) = stage_error(validate_one_based_indices(&[0], 3, "ix", 4).unwrap_err());
    assert_eq!(message, "ix contains out-of-bounds 1-based index 0 at position 1 for n_ps=3");
    assert!(validate_one_based_indices(&[1, 2, 3], 3, "ix", 4).is_ok());
}

#[test]
fn inserted_edges_are_ordered_and_unique() {
    let mut edges = BTreeSet::new();
    insert_edge(&mut edges, 3, 1);
    insert_edge(&mut edges, 1, 3);
    insert_edge(&mut edges, 2, 2);
    insert_edge(&mut edges, 0, 5);
    assert_eq!(edges.into_iter().collect::<Vec<_>>(), vec![(0, 5), (1, 3)]);
}

#[test]
fn edges_are_numbered_in_order_of_first_sight_with_a_direction_sign() {
    let mut ids = BTreeMap::new();
    assert_eq!(edge_id_signed(&mut ids, 2, 1), -1);
    assert_eq!(edge_id_signed(&mut ids, 1, 3), 2);
    assert_eq!(edge_id_signed(&mut ids, 1, 2), 1);
    assert_eq!(edge_id_signed(&mut ids, 3, 1), -2);
    assert_eq!(edge_id_signed(&mut ids, 4, 4), 0);
    assert_eq!(ids.len(), 2);
    assert_eq!(ids.get(&(1, 2)), Some(&1));
}

#[test]
fn adjacency_lists_follow_the_edge_order() {
    let adjacency = graph_adjacency(&table(&[(1, 2), (3, 1), (2, 3)]), 3).unwrap();
    assert_eq!(adjacency, vec![vec![1, 2], vec![0, 2], vec![0, 1]]);
}

#[test]
fn adjacency_rejects_bad_tables() {
    let narrow = NodeColumns { rows: 2, cols: 2, ends: vec![] };
    let (stage, message) = stage_error(graph_adjacency(&narrow, 3).unwrap_err());
    assert_eq!((stage, message.as_str()), (6, "uw_interp.edgs must have at least 3 columns, got 2"));
    let (_, message) = stage_error(graph_adjacency(&table(&[(1, 2), (0, 2)]), 3).unwrap_err());
    assert_eq!(message, "invalid Stage 6 unwrap graph edge 2: (0, 2) for n_nodes=3");
    let (_, message) = stage_error(graph_adjacency(&table(&[(2, 2)]), 3).unwrap_err());
    assert_eq!(message, "invalid Stage 6 unwrap graph edge 1: (2, 2) for n_nodes=3");
}

#[test]
fn stage6_disconnected_unwrap_graph_returns_structured_error() {
    let (stage, message) = stage_error(validate_connected_graph(&table(&[(1, 2), (3, 4)]), 4).unwrap_err());
    assert_eq!(stage, 6);
    assert!(message.contains("disconnected unwrap graph"));
    assert_eq!(message, "disconnected unwrap graph: not all grid points are reachable");
}

#[test]
fn connected_graphs_pass() {
    assert!(validate_connected_graph(&table(&[(1, 2), (4, 3), (2, 3)]), 4).is_ok());
    assert!(validate_connected_graph(&table(&[]), 1).is_ok());
    assert!(validate_connected_graph(&table(&[(7, 9)]), 1).is_ok());
    assert!(validate_connected_graph(&table(&[]), 2).is_err());
}

#[test]
fn malformed_edge_orientation_returns_structured_stage8_error() {
    let wide = NodeColumns { rows: 1, cols: 4, ends: vec![(1, 2)] };
    let (stage, message) = stage_error(edge_table("edgs", Ok(wide), 3).unwrap_err());
    assert_eq!(stage, 8);
    assert!(message.contains("uw_interp.edgs"));
    assert!(message.contains("Nx3 edge table"));
    assert_eq!(message, "uw_interp.edgs must be an Nx3 edge table with 1-based node columns 2 and 3; got 1x4");
}

#[test]
fn edge_table_converts_to_zero_based_edges() {
    assert_eq!(edge_table("edgs", Ok(table(&[(1, 2), (3, 1)])), 3).unwrap(), vec![(0, 1), (2, 0)]);
    let (_, message) = stage_error(edge_table("edgs", Ok(table(&[(1, 4)])), 3).unwrap_err());
    assert_eq!(message, "uw_interp.edgs row 1 has malformed 1-based edge nodes (1, 4) for n_ps=3");
    let (_, message) = stage_error(edge_table("edgs", Err("MAT variable edgs is missing".to_string()), 3).unwrap_err());
    assert_eq!(message, "uw_interp.edgs is invalid: MAT variable edgs is missing");
}

#[test]
fn interpolation_edges_are_numbered_in_order_of_first_sight() {
    let r = interp_edges(&vec![1, 2, 1, 2], 2, 2, &vec![(0, 1)]);
    assert_eq!(r.edgs, vec![(1, 2)]);
    assert_eq!(r.rowix, vec![0, 0]);
    assert_eq!(r.colix, vec![1, 1]);

    let r = interp_edges(&vec![2, 1, 3, 3], 2, 2, &vec![(0, 2)]);
    assert_eq!(r.edgs, vec![(1, 3), (2, 3), (1, 2)]);
    assert_eq!(r.rowix, vec![2, 1]);
    assert_eq!(r.colix, vec![-3, 0]);
}

#[test]
fn interpolation_edges_of_a_single_row_and_column() {
    let r = interp_edges(&vec![1, 2, 3], 1, 3, &vec![]);
    assert_eq!(r.edgs, vec![(1, 2), (2, 3)]);
    assert!(r.rowix.is_empty());
    assert_eq!(r.colix, vec![1, 2]);
    let r = interp_edges(&vec![3, 1], 2, 1, &vec![]);
    assert_eq!(r.edgs, vec![(1, 3)]);
    assert_eq!(r.rowix, vec![-1]);
    assert!(r.colix.is_empty());
}
