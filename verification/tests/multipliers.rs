//! Tests of the three multiplication engines: exact agreement with the naive
//! reference on fixed and random inputs, square and not, even-sized and odd,
//! in sequential and parallel mode, and the rejection of malformed requests.

use matmul::matrix::Matrix;
use matmul::error::MatmulError;
use matmul::iterative_matmul::{iterative_matmul, reference_matmul};
use matmul::divide_conquer_matmul::{divide_conquer_matmul, divide_conquer_with_workers};
use matmul::strassen_matmul::{strassen_matmul, strassen_with_workers};

/// Build a matrix from a row-major table of values.
fn from_rows(rows: &[&[i64]]) -> Matrix {
    let r = rows.len();
    let c = rows[0].len();
    let mut m = Matrix::new(r, c);
    for i in 0..r {
        assert_eq!(rows[i].len(), c);
        for j in 0..c {
            m.set(i, j, rows[i][j]);
        }
    }
    m
}

fn assert_mat_eq(x: &Matrix, y: &Matrix) {
    assert_eq!(x.rows, y.rows);
    assert_eq!(x.cols, y.cols);
    for i in 0..x.rows {
        for j in 0..x.cols {
            assert_eq!(x.get(i, j), y.get(i, j), "entry ({}, {}) differs", i, j);
        }
    }
}

/// Identity matrix of order `n`.
fn identity(n: usize) -> Matrix {
    let mut m = Matrix::new(n, n);
    for i in 0..n {
        m.set(i, i, 1);
    }
    m
}

#[test]
fn iterative_non_square_matches_hand_computed() {
    let a = from_rows(&[&[1, 2, 3, 4, 5], &[6, 7, 8, 9, 10], &[11, 12, 13, 14, 15]]);
    let b = from_rows(&[&[1, 2], &[3, 4], &[5, 6], &[7, 8], &[9, 10]]);
    let c = iterative_matmul(&a, &b).unwrap();
    assert_eq!(c.rows, 3);
    assert_eq!(c.cols, 2);
    assert_mat_eq(&c, &from_rows(&[&[95, 110], &[220, 260], &[345, 410]]));
}

#[test]
fn reference_matches_hand_computed() {
    let a = from_rows(&[&[1, 2, 3, 4, 5], &[6, 7, 8, 9, 10], &[11, 12, 13, 14, 15]]);
    let b = from_rows(&[&[1, 2], &[3, 4], &[5, 6], &[7, 8], &[9, 10]]);
    let c = reference_matmul(&a, &b);
    assert_mat_eq(&c, &from_rows(&[&[95, 110], &[220, 260], &[345, 410]]));
}

#[test]
fn all_multipliers_agree_on_random_inputs() {
    // square and non-square shapes, even and odd, at every threshold up to the
    // smallest dimension
    let shapes: [(usize, usize, usize); 5] = [(4, 4, 4), (5, 5, 5), (7, 3, 6), (8, 8, 8), (6, 9, 2)];
    for &(m, n, p) in shapes.iter() {
        let a = Matrix::random(m, n);
        let b = Matrix::random(n, p);
        let reference = reference_matmul(&a, &b);
        let it = iterative_matmul(&a, &b).unwrap();
        assert_mat_eq(&it, &reference);
        let min_dim = m.min(n).min(p);
        for threshold in 1..=min_dim {
            let dc = divide_conquer_matmul(&a, &b, threshold, false).unwrap();
            assert_mat_eq(&dc, &reference);
            let st = strassen_matmul(&a, &b, threshold, false).unwrap();
            assert_mat_eq(&st, &reference);
        }
    }
}

#[test]
fn threshold_above_dimensions_is_immediate_base_case() {
    let a = Matrix::random(3, 3);
    let b = Matrix::random(3, 3);
    let reference = reference_matmul(&a, &b);
    let dc = divide_conquer_matmul(&a, &b, 64, false).unwrap();
    assert_mat_eq(&dc, &reference);
    let st = strassen_matmul(&a, &b, 64, false).unwrap();
    assert_mat_eq(&st, &reference);
}

#[test]
fn identity_like_4x4_at_threshold_2() {
    let a = identity(4);
    let b = Matrix::random(4, 4);
    let reference = reference_matmul(&a, &b);
    assert_mat_eq(&reference, &b);
    let dc = divide_conquer_matmul(&a, &b, 2, false).unwrap();
    assert_mat_eq(&dc, &reference);
    let st = strassen_matmul(&a, &b, 2, false).unwrap();
    assert_mat_eq(&st, &reference);
}

#[test]
fn odd_5x5_at_threshold_2_exercises_asymmetric_split() {
    let a = Matrix::random(5, 5);
    let b = Matrix::random(5, 5);
    let reference = reference_matmul(&a, &b);
    let dc = divide_conquer_matmul(&a, &b, 2, false).unwrap();
    assert_eq!(dc.rows, 5);
    assert_eq!(dc.cols, 5);
    assert_mat_eq(&dc, &reference);
    let st = strassen_matmul(&a, &b, 2, false).unwrap();
    assert_eq!(st.rows, 5);
    assert_eq!(st.cols, 5);
    assert_mat_eq(&st, &reference);
}

#[test]
fn parallel_mode_agrees_with_sequential() {
    let a = Matrix::random(8, 8);
    let b = Matrix::random(8, 8);
    let seq_dc = divide_conquer_matmul(&a, &b, 2, false).unwrap();
    match divide_conquer_matmul(&a, &b, 2, true) {
        Ok(par_dc) => assert_mat_eq(&par_dc, &seq_dc),
        Err(MatmulError::Configuration { workers }) => assert!(workers < 2),
        Err(e) => panic!("unexpected error: {:?}", e),
    }
    let seq_st = strassen_matmul(&a, &b, 2, false).unwrap();
    match strassen_matmul(&a, &b, 2, true) {
        Ok(par_st) => assert_mat_eq(&par_st, &seq_st),
        Err(MatmulError::Configuration { workers }) => assert!(workers < 2),
        Err(e) => panic!("unexpected error: {:?}", e),
    }
}

#[test]
fn parallel_with_explicit_workers_agrees_with_sequential() {
    let a = Matrix::random(7, 5);
    let b = Matrix::random(5, 6);
    let reference = reference_matmul(&a, &b);
    let dc = divide_conquer_with_workers(&a, &b, 2, true, 4).unwrap();
    assert_mat_eq(&dc, &reference);
    let st = strassen_with_workers(&a, &b, 2, true, 4).unwrap();
    assert_mat_eq(&st, &reference);
}

#[test]
fn dimension_mismatch_is_rejected_by_every_multiplier() {
    let a = Matrix::random(2, 3);
    let b = Matrix::random(2, 2);
    let expected = MatmulError::DimensionMismatch { a_rows: 2, a_cols: 3, b_rows: 2, b_cols: 2 };
    assert_eq!(iterative_matmul(&a, &b).unwrap_err(), expected);
    assert_eq!(divide_conquer_matmul(&a, &b, 2, false).unwrap_err(), expected);
    assert_eq!(divide_conquer_matmul(&a, &b, 2, true).unwrap_err(), expected);
    assert_eq!(strassen_matmul(&a, &b, 2, false).unwrap_err(), expected);
    assert_eq!(strassen_matmul(&a, &b, 2, true).unwrap_err(), expected);
    assert_eq!(divide_conquer_with_workers(&a, &b, 2, true, 8).unwrap_err(), expected);
    assert_eq!(strassen_with_workers(&a, &b, 2, true, 8).unwrap_err(), expected);
}

#[test]
fn single_worker_parallel_request_is_a_configuration_error() {
    let a = Matrix::random(4, 4);
    let b = Matrix::random(4, 4);
    assert_eq!(
        divide_conquer_with_workers(&a, &b, 2, true, 1).unwrap_err(),
        MatmulError::Configuration { workers: 1 }
    );
    assert_eq!(
        strassen_with_workers(&a, &b, 2, true, 0).unwrap_err(),
        MatmulError::Configuration { workers: 0 }
    );
    // sequential mode is not a configuration error, whatever the pool
    assert!(divide_conquer_with_workers(&a, &b, 2, false, 1).is_ok());
    assert!(strassen_with_workers(&a, &b, 2, false, 1).is_ok());
}

#[test]
fn mismatch_is_reported_before_configuration() {
    let a = Matrix::random(2, 3);
    let b = Matrix::random(2, 2);
    let expected = MatmulError::DimensionMismatch { a_rows: 2, a_cols: 3, b_rows: 2, b_cols: 2 };
    assert_eq!(divide_conquer_with_workers(&a, &b, 2, true, 1).unwrap_err(), expected);
    assert_eq!(strassen_with_workers(&a, &b, 2, true, 1).unwrap_err(), expected);
}

#[test]
fn negative_entries_multiply_correctly() {
    let a = from_rows(&[&[-1, 2], &[3, -4]]);
    let b = from_rows(&[&[5, -6], &[-7, 8]]);
    let expected = from_rows(&[&[-19, 22], &[43, -50]]);
    assert_mat_eq(&iterative_matmul(&a, &b).unwrap(), &expected);
    assert_mat_eq(&divide_conquer_matmul(&a, &b, 1, false).unwrap(), &expected);
    assert_mat_eq(&strassen_matmul(&a, &b, 1, false).unwrap(), &expected);
}
