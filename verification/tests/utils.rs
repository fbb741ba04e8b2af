use glv_mga::utils::hamming;

#[test]
fn test_hamming() {
    let x1 = vec![2, 3, 0];
    let x2 = vec![2, 4, 0];

    assert_eq!(hamming(&x1, &x2), 1)
}

#[test]
fn test_hamming_equal() {
    let x = vec![1, 0, 1, 1];

    assert_eq!(hamming(&x, &x), 0)
}

#[test]
fn test_hamming_all_different() {
    let x1 = vec![0, 0, 0];
    let x2 = vec![1, 1, 1];

    assert_eq!(hamming(&x1, &x2), 3)
}

#[test]
fn test_hamming_empty() {
    let x1: Vec<u8> = Vec::new();
    let x2: Vec<u8> = Vec::new();

    assert_eq!(hamming(&x1, &x2), 0)
}
