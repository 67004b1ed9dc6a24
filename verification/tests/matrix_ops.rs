//! Tests of the matrix container: construction, element access, the
//! column-major storage order, rectangular extraction, in-place addition and
//! subtraction, and quadrant recombination.

use matmul::matrix::{Matrix, RANDOM_BOUND};

/// Build a matrix from a row-major table of values.
fn from_rows(rows: &[&[i64]]) -> Matrix {
    let r = rows.len();
    let c = rows[0].len();
    let mut m = Matrix::new(r, c);
    for i in 0..r {
        assert_eq!(rows[i].len(), c);
        for j in 0..c {
            m.set(i, j, rows[i][j]);
        }
    }
    m
}

fn assert_mat_eq(x: &Matrix, y: &Matrix) {
    assert_eq!(x.rows, y.rows);
    assert_eq!(x.cols, y.cols);
    for i in 0..x.rows {
        for j in 0..x.cols {
            assert_eq!(x.get(i, j), y.get(i, j), "entry ({}, {}) differs", i, j);
        }
    }
}

#[test]
fn new_is_zero_filled() {
    let m = Matrix::new(3, 4);
    assert_eq!(m.rows, 3);
    assert_eq!(m.cols, 4);
    assert_eq!(m.data.len(), 12);
    for i in 0..3 {
        for j in 0..4 {
            assert_eq!(m.get(i, j), 0);
        }
    }
}

#[test]
fn get_set_roundtrip() {
    let mut m = Matrix::new(2, 3);
    m.set(1, 2, 42);
    m.set(0, 0, -7);
    assert_eq!(m.get(1, 2), 42);
    assert_eq!(m.get(0, 0), -7);
    assert_eq!(m.get(1, 1), 0);
}

#[test]
fn storage_is_column_major() {
    let m = from_rows(&[&[1, 2, 3], &[4, 5, 6]]);
    // element (i, j) lives at linear offset j * rows + i
    for i in 0..2 {
        for j in 0..3 {
            assert_eq!(m.data[j * m.rows + i], m.get(i, j));
        }
    }
    assert_eq!(m.data, vec![1, 4, 2, 5, 3, 6]);
}

#[test]
fn random_has_shape_and_range() {
    let m = Matrix::random(5, 7);
    assert_eq!(m.rows, 5);
    assert_eq!(m.cols, 7);
    assert_eq!(m.data.len(), 35);
    for &v in m.data.iter() {
        assert!(0 <= v && v < RANDOM_BOUND);
    }
}

#[test]
fn random_is_not_constant() {
    let m = Matrix::random(1, 200);
    let first = m.get(0, 0);
    assert!(
        (0..200).any(|j| m.get(0, j) != first),
        "two hundred identical draws point to a broken generator"
    );
}

#[test]
fn submatrix_copies_region() {
    let m = from_rows(&[&[1, 2, 3, 4], &[5, 6, 7, 8], &[9, 10, 11, 12]]);
    let s = m.submatrix(1, 3, 1, 4);
    assert_eq!(s.rows, 2);
    assert_eq!(s.cols, 3);
    let expect = from_rows(&[&[6, 7, 8], &[10, 11, 12]]);
    assert_mat_eq(&s, &expect);
}

#[test]
fn submatrix_is_independent_copy() {
    let m = from_rows(&[&[1, 2], &[3, 4]]);
    let mut s = m.submatrix(0, 1, 0, 2);
    s.set(0, 0, 99);
    assert_eq!(m.get(0, 0), 1, "mutating the copy must not affect the source");
    assert_eq!(s.get(0, 0), 99);
}

#[test]
fn add_is_elementwise() {
    let mut x = from_rows(&[&[1, 2], &[3, 4]]);
    let y = from_rows(&[&[10, 20], &[30, 40]]);
    x.add(&y);
    assert_mat_eq(&x, &from_rows(&[&[11, 22], &[33, 44]]));
}

#[test]
fn sub_is_elementwise() {
    let mut x = from_rows(&[&[11, 22], &[33, 44]]);
    let y = from_rows(&[&[1, 2], &[3, 4]]);
    x.sub(&y);
    assert_mat_eq(&x, &from_rows(&[&[10, 20], &[30, 40]]));
}

#[test]
fn add_then_sub_is_identity() {
    let mut x = from_rows(&[&[5, -3, 7], &[0, 2, -9]]);
    let original = x.duplicate();
    let y = from_rows(&[&[1, 4, -2], &[8, -6, 3]]);
    x.add(&y);
    x.sub(&y);
    assert_mat_eq(&x, &original);
}

#[test]
fn combine_quadrants_assembles() {
    let c11 = from_rows(&[&[1]]);
    let c12 = from_rows(&[&[2, 3]]);
    let c21 = from_rows(&[&[4], &[7]]);
    let c22 = from_rows(&[&[5, 6], &[8, 9]]);
    let m = Matrix::combine_quadrants(&c11, &c12, &c21, &c22);
    assert_mat_eq(&m, &from_rows(&[&[1, 2, 3], &[4, 5, 6], &[7, 8, 9]]));
}

#[test]
fn split_then_combine_reconstructs_even() {
    let m = from_rows(&[&[1, 2, 3, 4], &[5, 6, 7, 8], &[9, 10, 11, 12], &[13, 14, 15, 16]]);
    let rh = m.rows / 2;
    let ch = m.cols / 2;
    let c11 = m.submatrix(0, rh, 0, ch);
    let c12 = m.submatrix(0, rh, ch, m.cols);
    let c21 = m.submatrix(rh, m.rows, 0, ch);
    let c22 = m.submatrix(rh, m.rows, ch, m.cols);
    let back = Matrix::combine_quadrants(&c11, &c12, &c21, &c22);
    assert_mat_eq(&back, &m);
}

#[test]
fn split_then_combine_reconstructs_odd() {
    // 5x5: the upper-left quadrant takes the floor halves, the lower/right
    // quadrant is one row and one column larger.
    let m = Matrix::random(5, 5);
    let rh = m.rows / 2;
    let ch = m.cols / 2;
    let c11 = m.submatrix(0, rh, 0, ch);
    let c12 = m.submatrix(0, rh, ch, m.cols);
    let c21 = m.submatrix(rh, m.rows, 0, ch);
    let c22 = m.submatrix(rh, m.rows, ch, m.cols);
    assert_eq!(c11.rows, 2);
    assert_eq!(c11.cols, 2);
    assert_eq!(c22.rows, 3);
    assert_eq!(c22.cols, 3);
    let back = Matrix::combine_quadrants(&c11, &c12, &c21, &c22);
    assert_mat_eq(&back, &m);
}

#[test]
fn split_then_combine_reconstructs_at_any_split_point() {
    let m = Matrix::random(6, 4);
    for rh in 0..=m.rows {
        for ch in 0..=m.cols {
            let c11 = m.submatrix(0, rh, 0, ch);
            let c12 = m.submatrix(0, rh, ch, m.cols);
            let c21 = m.submatrix(rh, m.rows, 0, ch);
            let c22 = m.submatrix(rh, m.rows, ch, m.cols);
            let back = Matrix::combine_quadrants(&c11, &c12, &c21, &c22);
            assert_mat_eq(&back, &m);
        }
    }
}

#[test]
fn duplicate_is_equal_and_independent() {
    let m = from_rows(&[&[1, 2], &[3, 4]]);
    let mut d = m.duplicate();
    assert_mat_eq(&d, &m);
    d.set(1, 1, 100);
    assert_eq!(m.get(1, 1), 4);
}
