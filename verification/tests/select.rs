use pystamps::core_error::CoreError;
use pystamps::select::{orient_points, select_rows, select_values, transpose};

#[test]
fn select_rows_takes_whole_rows_in_order() {
    let values = vec![1.0f64, 2.0, 3.0, 4.0, 5.0, 6.0];
    assert_eq!(select_rows(&values, 2, &[2, 0, 2]), vec![5.0, 6.0, 1.0, 2.0, 5.0, 6.0]);
    assert!(select_rows(&values, 2, &[]).is_empty());
}

#[test]
fn select_values_picks_by_position() {
    let values = [(1.0f32, -1.0f32), (2.0, -2.0), (3.0, -3.0)];
    assert_eq!(select_values(&values, &[1, 1, 0]), vec![(2.0, -2.0), (2.0, -2.0), (1.0, -1.0)]);
}

#[test]
fn transpose_swaps_rows_and_columns() {
    let values = vec![1, 2, 3, 4, 5, 6];
    assert_eq!(transpose(&values, 2, 3), vec![1, 4, 2, 5, 3, 6]);
    assert_eq!(transpose(&transpose(&values, 2, 3), 3, 2), values);
}

#[test]
fn orient_points_keeps_transposes_or_refuses() {
    let values = vec![1, 2, 3, 4, 5, 6];
    let (kept, rows, cols) = orient_points(values.clone(), 2, 3, 2, "ps2.xy", 7).unwrap();
    assert_eq!((kept, rows, cols), (values.clone(), 2, 3));
    let (turned, rows, cols) = orient_points(values.clone(), 2, 3, 3, "ps2.xy", 7).unwrap();
    assert_eq!((turned, rows, cols), (vec![1, 4, 2, 5, 3, 6], 3, 2));
    match orient_points(values, 2, 3, 4, "ps2.xy", 7) {
        Err(CoreError::NativeStage { stage, message }) => {
            assert_eq!(stage, 7);
            assert_eq!(message, "ps2.xy has incompatible shape 2x3 for n_ps=4");
        }
        _ => panic!("expected a stage error"),
    }
}
