use glv_mga::errors::EcoError;
use glv_mga::fitness::survivor_count;
use glv_mga::glv::coefficient_kinds;
use glv_mga::glv::CoeffKind;

#[test]
fn test_coefficient_kinds() {
    let graph = vec![vec![0, 1, 0], vec![1, 0, 1], vec![1, 0, 0]];

    let plan = coefficient_kinds(&graph, 3).unwrap();

    assert_eq!(plan[0][1], CoeffKind::RandomEdge);
    assert_eq!(plan[1][1], CoeffKind::SelfLimiting);
    assert_eq!(plan[2][1], CoeffKind::Absent);
}

#[test]
fn test_coefficient_kinds_diagonal_wins() {
    // a template edge on the diagonal is still pinned at self-limitation
    let graph = vec![vec![1, 0], vec![0, 1]];

    let plan = coefficient_kinds(&graph, 2).unwrap();

    assert_eq!(plan[0][0], CoeffKind::SelfLimiting);
    assert_eq!(plan[1][1], CoeffKind::SelfLimiting);
    assert_eq!(plan[0][1], CoeffKind::Absent);
    assert_eq!(plan[1][0], CoeffKind::Absent);
}

#[test]
fn test_coefficient_kinds_shape_mismatch() {
    let graph = vec![vec![0, 1], vec![1, 0]];

    assert_eq!(coefficient_kinds(&graph, 3).unwrap_err(), EcoError::ShapeMismatch);

    let ragged = vec![vec![0, 1], vec![1]];
    assert_eq!(coefficient_kinds(&ragged, 2).unwrap_err(), EcoError::ShapeMismatch)
}

#[test]
fn test_survivor_count() {
    let flags = vec![vec![true, false, true], vec![true, true, false]];

    assert_eq!(survivor_count(&flags), 4)
}

#[test]
fn test_survivor_count_empty() {
    let flags: Vec<Vec<bool>> = Vec::new();

    assert_eq!(survivor_count(&flags), 0)
}
