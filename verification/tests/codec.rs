use glv_mga::codec::decode;
use glv_mga::codec::encode;
use glv_mga::errors::EcoError;

#[test]
fn test_vec_to_mat() {
    let in_vec = vec![1, 2, 3, 4, 5, 6, 7, 8, 9];
    let out_vec = vec![vec![1, 2, 3], vec![4, 5, 6], vec![7, 8, 9]];
    let test_out = decode(&in_vec, 3).unwrap();
    assert_eq!(out_vec[0][1], test_out[0][1]);
    assert_eq!(out_vec[1][0], test_out[1][0]);
    assert_eq!(out_vec[2][2], test_out[2][2]);
}

#[test]
fn test_decode_full_rows() {
    let in_vec = vec![1, 2, 3, 4, 5, 6, 7, 8, 9];
    let expected = vec![vec![1, 2, 3], vec![4, 5, 6], vec![7, 8, 9]];

    assert_eq!(decode(&in_vec, 3).unwrap(), expected)
}

#[test]
fn test_decode_wrong_length() {
    let in_vec = vec![1, 0, 1, 1, 0];

    assert_eq!(decode(&in_vec, 2).unwrap_err(), EcoError::ShapeMismatch);
    assert_eq!(decode(&in_vec, 0).unwrap_err(), EcoError::ShapeMismatch)
}

#[test]
fn test_decode_empty() {
    let in_vec: Vec<u8> = Vec::new();
    let out: Vec<Vec<u8>> = Vec::new();

    assert_eq!(decode(&in_vec, 0).unwrap(), out)
}

#[test]
fn test_encode_flattens_rows() {
    let m = vec![vec![0, 1], vec![1, 0]];

    assert_eq!(encode(&m).unwrap(), vec![0, 1, 1, 0])
}

#[test]
fn test_encode_ragged() {
    let m = vec![vec![0, 1], vec![1]];

    assert_eq!(encode(&m).unwrap_err(), EcoError::ShapeMismatch)
}

#[test]
fn test_round_trip_matrix() {
    let m = vec![vec![1, 0, 1], vec![0, 0, 1], vec![1, 1, 0]];
    let flat = encode(&m).unwrap();

    assert_eq!(decode(&flat, 3).unwrap(), m)
}

#[test]
fn test_round_trip_flat() {
    let g = vec![1, 0, 0, 1];
    let m = decode(&g, 2).unwrap();

    assert_eq!(encode(&m).unwrap(), g)
}
