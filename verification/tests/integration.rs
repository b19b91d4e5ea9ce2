use matrix_rs::multiply;
use nalgebra::DMatrix;
use rand::rngs::StdRng;
use rand::{RngExt, SeedableRng};

fn generate_random(rng: &mut StdRng, size: usize) -> DMatrix<i64> {
    let random_data: Vec<i64> = (0..(size * size)).map(|_| rng.random_range(-10..10)).collect();
    DMatrix::from_vec(size, size, random_data)
}

fn to_vec(matrix: &DMatrix<i64>) -> Vec<Vec<i64>> {
    matrix.row_iter().map(|row| row.iter().copied().collect()).collect()
}

fn test_for_size(rng: &mut StdRng, size: usize) {
    assert!(size.is_power_of_two());

    let matrix_a = generate_random(rng, size);
    let matrix_b = generate_random(rng, size);

    let expected = to_vec(&(&matrix_a * &matrix_b));
    let result = multiply(to_vec(&matrix_a), to_vec(&matrix_b)).unwrap();

    assert_eq!(expected, result);
}

#[test]
fn test_valid_multiplication() {
    let a = vec![vec![1, 2], vec![3, 4]];
    let b = vec![vec![5, 6], vec![7, 8]];
    let expected = vec![vec![19, 22], vec![43, 50]];

    assert_eq!(multiply(a, b).unwrap(), expected);
}

#[test]
fn test_minimum_valid_matrix_size() {
    let a = vec![vec![42]];
    let b = vec![vec![1]];
    let expected = vec![vec![42]];

    assert_eq!(multiply(a, b).unwrap(), expected);
}

#[test]
fn test_invalid_matrix_not_power_of_two() {
    let a = vec![vec![1, 2, 3], vec![4, 5, 6], vec![7, 8, 9]];
    let b = a.clone();

    assert!(multiply(a, b).is_err());
}

#[test]
fn test_rectangular_matrix_should_fail() {
    let a = vec![vec![1, 2, 3], vec![4, 5, 6]];
    let b = vec![vec![1, 2, 3], vec![4, 5, 6]];

    assert!(multiply(a, b).is_err());
}

#[test]
fn test_irregular_matrix_should_fail() {
    let a = vec![vec![1, 2], vec![3, 4, 5]];
    let b = vec![vec![6, 7], vec![8, 9]];

    assert!(multiply(a, b).is_err());
}

#[test]
fn test_empty_matrix_should_fail() {
    let a: Vec<Vec<i64>> = vec![];
    let b: Vec<Vec<i64>> = vec![];
    assert!(multiply(a, b).is_err());
}

#[test]
fn test_large_valid_power_of_two_matrix() {
    let a = vec![
        vec![1, 2, 3, 4],
        vec![5, 6, 7, 8],
        vec![9, 10, 11, 12],
        vec![13, 14, 15, 16],
    ];
    let b = vec![
        vec![1, 0, 0, 0],
        vec![0, 1, 0, 0],
        vec![0, 0, 1, 0],
        vec![0, 0, 0, 1],
    ];
    let result = multiply(a.clone(), b);
    assert_eq!(result.unwrap(), a);
}

#[test]
fn test_check_behaviour_with_nalgebra() {
    let mut rng = StdRng::seed_from_u64(42);
    test_for_size(&mut rng, 2);
    test_for_size(&mut rng, 4);
    test_for_size(&mut rng, 8);
    test_for_size(&mut rng, 2usize.pow(7));
    test_for_size(&mut rng, 2usize.pow(8));
}

#[test]
fn test_check_size_one_with_nalgebra() {
    let mut rng = StdRng::seed_from_u64(7);
    test_for_size(&mut rng, 1);
}
