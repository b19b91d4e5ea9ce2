use matrix_rs::{
    multiply, naive_multiply_into, validate_matrices, validate_matrix, MatricesError, MatrixError,
    Offset, Operand,
};

fn identity(n: usize) -> Vec<Vec<i64>> {
    let mut m = Vec::new();
    for i in 0..n {
        let mut row = vec![0; n];
        row[i] = 1;
        m.push(row);
    }
    m
}

#[test]
fn test_identity_right_leaves_matrix_unchanged() {
    let a = vec![
        vec![3, -1, 4, -1],
        vec![5, 9, -2, 6],
        vec![-5, 3, 5, 8],
        vec![9, -7, 9, 3],
    ];
    assert_eq!(multiply(a.clone(), identity(4)).unwrap(), a);
}

#[test]
fn test_identity_left_leaves_matrix_unchanged() {
    let a = vec![
        vec![2, 7, 1, -8],
        vec![2, 8, 1, 8],
        vec![-2, 8, 4, 5],
        vec![9, 0, 4, -5],
    ];
    assert_eq!(multiply(identity(4), a.clone()).unwrap(), a);
}

#[test]
fn test_identity_both_sides_above_threshold() {
    let a: Vec<Vec<i64>> = (0..8).map(|i| (0..8).map(|j| (i * 8 + j) as i64 - 31).collect()).collect();
    assert_eq!(multiply(a.clone(), identity(8)).unwrap(), a);
    assert_eq!(multiply(identity(8), a.clone()).unwrap(), a);
}

#[test]
fn test_repeated_calls_give_identical_output() {
    let a = vec![vec![1, -2], vec![-3, 4]];
    let b = vec![vec![-5, 6], vec![7, -8]];
    let first = multiply(a.clone(), b.clone());
    let second = multiply(a.clone(), b.clone());
    assert_eq!(first, second);

    let empty: Vec<Vec<i64>> = vec![];
    let e1 = multiply(empty.clone(), empty.clone());
    let e2 = multiply(empty.clone(), empty);
    assert_eq!(e1, e2);
}

#[test]
fn test_empty_matrix_reports_empty_for_a() {
    let a: Vec<Vec<i64>> = vec![];
    let b = vec![vec![1, 2], vec![3, 4]];
    assert_eq!(
        multiply(a, b),
        Err(MatricesError::MatrixError { name: Operand::A, source: MatrixError::Empty })
    );
}

#[test]
fn test_invalid_b_reported_after_valid_a() {
    let a = vec![vec![1, 2], vec![3, 4]];
    let b: Vec<Vec<i64>> = vec![];
    assert_eq!(
        multiply(a, b),
        Err(MatricesError::MatrixError { name: Operand::B, source: MatrixError::Empty })
    );
}

#[test]
fn test_a_failure_reported_before_b_is_checked() {
    let a = vec![vec![1, 2, 3], vec![4, 5, 6], vec![7, 8, 9]];
    let b: Vec<Vec<i64>> = vec![];
    assert_eq!(
        multiply(a, b),
        Err(MatricesError::MatrixError { name: Operand::A, source: MatrixError::NotPowerOfTwo })
    );
}

#[test]
fn test_three_by_three_reports_not_power_of_two() {
    let m = vec![vec![1, 2, 3], vec![4, 5, 6], vec![7, 8, 9]];
    assert_eq!(validate_matrix(&m), Err(MatrixError::NotPowerOfTwo));
}

#[test]
fn test_rectangular_reports_not_square() {
    let m = vec![vec![1, 2, 3], vec![4, 5, 6]];
    assert_eq!(validate_matrix(&m), Err(MatrixError::NotSquare));
}

#[test]
fn test_irregular_rows_report_not_square() {
    let m = vec![vec![1, 2], vec![3, 4, 5]];
    assert_eq!(validate_matrix(&m), Err(MatrixError::NotSquare));
}

#[test]
fn test_empty_reports_empty() {
    let m: Vec<Vec<i64>> = vec![];
    assert_eq!(validate_matrix(&m), Err(MatrixError::Empty));
}

#[test]
fn test_valid_matrix_passes_validation() {
    let m = vec![vec![1, 2], vec![3, 4]];
    assert_eq!(validate_matrix(&m), Ok(()));
    assert_eq!(validate_matrices(&m, &m.clone()), Ok(()));
}

#[test]
fn test_size_mismatch_reported_last() {
    let a = vec![vec![1, 2], vec![3, 4]];
    let b = identity(4);
    assert_eq!(multiply(a, b), Err(MatricesError::MatricesNotTheSameSize));
}

#[test]
fn test_arithmetic_wraps_modulo_two_to_the_64() {
    let a = vec![vec![i64::MAX]];
    let b = vec![vec![2]];
    assert_eq!(multiply(a, b).unwrap(), vec![vec![-2]]);

    let a = vec![vec![i64::MIN]];
    let b = vec![vec![-1]];
    assert_eq!(multiply(a, b).unwrap(), vec![vec![i64::MIN]]);
}

#[test]
fn test_error_messages() {
    let a: Vec<Vec<i64>> = vec![];
    let b = vec![vec![1, 2, 3], vec![4, 5, 6], vec![7, 8, 9]];
    let e = multiply(a, b.clone()).unwrap_err();
    assert_eq!(e.message(), "A: Matrix is empty");

    let ok = vec![vec![1, 2], vec![3, 4]];
    let e = multiply(ok.clone(), b).unwrap_err();
    assert_eq!(e.message(), "B: Matrix is not a power of two");

    let e = multiply(ok.clone(), identity(4)).unwrap_err();
    assert_eq!(e.message(), "Matrix A and B are not the same size");

    let rect = vec![vec![1, 2, 3], vec![4, 5, 6]];
    let e = multiply(rect, ok).unwrap_err();
    assert_eq!(e.message(), "A: Matrix is not square");

    assert_eq!(MatrixError::Empty.message(), "Matrix is empty");
    assert_eq!(MatrixError::NotSquare.message(), "Matrix is not square");
    assert_eq!(MatrixError::NotPowerOfTwo.message(), "Matrix is not a power of two");
}

#[test]
fn test_offset_split_quadrants() {
    let offset = Offset { row_start: 1, col_start: 2, n: 4 };
    let split = offset.split();
    assert_eq!(split.s11, Offset { row_start: 1, col_start: 2, n: 2 });
    assert_eq!(split.s12, Offset { row_start: 1, col_start: 4, n: 2 });
    assert_eq!(split.s21, Offset { row_start: 3, col_start: 2, n: 2 });
    assert_eq!(split.s22, Offset { row_start: 3, col_start: 4, n: 2 });
}

#[test]
fn test_naive_multiply_into_overwrites_destination_region() {
    let a = vec![vec![1, 2], vec![3, 4]];
    let b = vec![vec![5, 6], vec![7, 8]];
    let a_offset = Offset::new_unchecked(&a);
    let b_offset = Offset::new_unchecked(&b);
    let mut c = vec![vec![9, 9], vec![9, 9]];
    let c_offset = Offset::new_unchecked(&c);
    naive_multiply_into(
        &a_offset.as_matrix_with_offset(&a),
        &b_offset.as_matrix_with_offset(&b),
        &mut c,
        c_offset,
    );
    assert_eq!(c, vec![vec![19, 22], vec![43, 50]]);
}

#[test]
fn test_four_by_four_against_hand_computed_product() {
    let a = vec![
        vec![1, 2, 3, 4],
        vec![5, 6, 7, 8],
        vec![9, 10, 11, 12],
        vec![13, 14, 15, 16],
    ];
    let b = vec![
        vec![17, 18, 19, 20],
        vec![21, 22, 23, 24],
        vec![25, 26, 27, 28],
        vec![29, 30, 31, 32],
    ];
    let expected = vec![
        vec![250, 260, 270, 280],
        vec![618, 644, 670, 696],
        vec![986, 1028, 1070, 1112],
        vec![1354, 1412, 1470, 1528],
    ];
    assert_eq!(multiply(a, b).unwrap(), expected);
}
