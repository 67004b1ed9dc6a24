//! The triple-loop multiplier: the baseline every recursive strategy falls
//! back to, and the ground truth their contracts coincide with.

use vstd::prelude::*;
use crate::matrix::{Matrix, MatrixView};
use crate::model::{view_mul, dot_seg, lemma_dot_seg_bound, lemma_mul_le, lemma_view_ext};
use crate::error::MatmulError;

verus! {

/// Some one element bound `bd` covers both operands and keeps every partial
/// sum of the product within `i64`. This is the machine-size condition under
/// which the multipliers are proved free of overflow.
pub open spec fn mul_fits(a: MatrixView, b: MatrixView) -> bool {
    exists|bd: int|
        0 <= bd && a.bounded(bd) && b.bounded(bd) && (a.cols as int) * (bd * bd) <= i64::MAX
}

/// The product `a * b` by the straightforward triple loop, ordered so that the
/// innermost loop walks both the result and `a` down one column, sequentially
/// in memory. Delegated to by both recursive multipliers below their
/// threshold.
#[verifier::loop_isolation(false)]
pub fn iterative_mul(a: &Matrix, b: &Matrix) -> (c: Matrix)
    requires
        a.wf(),
        b.wf(),
        a.cols == b.rows,
        mul_fits(a@, b@),
        a.rows * b.cols <= usize::MAX,
    ensures
        c.wf(),
        c.rows == a.rows,
        c.cols == b.cols,
        c@ == view_mul(a@, b@),
{
    let m = a.rows;
    let n = a.cols;
    let p = b.cols;
    let ghost bd = choose|bd: int|
        0 <= bd && a@.bounded(bd) && b@.bounded(bd) && (a@.cols as int) * (bd * bd) <= i64::MAX;
    let mut c = Matrix::new(m, p);
    let mut j: usize = 0;
    while j < p
        invariant
            j <= p,
            c.wf(),
            c.rows == m,
            c.cols == p,
            forall|ii: int, jj: int|
                0 <= ii < m && 0 <= jj < j ==> #[trigger] c@.entry(ii, jj) == dot_seg(
                    a@,
                    b@,
                    ii,
                    jj,
                    0,
                    n as int,
                ),
            forall|ii: int, jj: int|
                0 <= ii < m && j <= jj < p ==> #[trigger] c@.entry(ii, jj) == 0,
        decreases p - j,
    {
        let mut k: usize = 0;
        while k < n
            invariant
                k <= n,
                c.wf(),
                c.rows == m,
                c.cols == p,
                forall|ii: int, jj: int|
                    0 <= ii < m && 0 <= jj < j ==> #[trigger] c@.entry(ii, jj) == dot_seg(
                        a@,
                        b@,
                        ii,
                        jj,
                        0,
                        n as int,
                    ),
                forall|ii: int|
                    0 <= ii < m ==> #[trigger] c@.entry(ii, j as int) == dot_seg(
                        a@,
                        b@,
                        ii,
                        j as int,
                        0,
                        k as int,
                    ),
                forall|ii: int, jj: int|
                    0 <= ii < m && j < jj < p ==> #[trigger] c@.entry(ii, jj) == 0,
            decreases n - k,
        {
            let mut i: usize = 0;
            while i < m
                invariant
                    i <= m,
                    c.wf(),
                    c.rows == m,
                    c.cols == p,
                    forall|ii: int, jj: int|
                        0 <= ii < m && 0 <= jj < j ==> #[trigger] c@.entry(ii, jj) == dot_seg(
                            a@,
                            b@,
                            ii,
                            jj,
                            0,
                            n as int,
                        ),
                    forall|ii: int|
                        0 <= ii < i ==> #[trigger] c@.entry(ii, j as int) == dot_seg(
                            a@,
                            b@,
                            ii,
                            j as int,
                            0,
                            k as int + 1,
                        ),
                    forall|ii: int|
                        i <= ii < m ==> #[trigger] c@.entry(ii, j as int) == dot_seg(
                            a@,
                            b@,
                            ii,
                            j as int,
                            0,
                            k as int,
                        ),
                    forall|ii: int, jj: int|
                        0 <= ii < m && j < jj < p ==> #[trigger] c@.entry(ii, jj) == 0,
                decreases m - i,
            {
                proof {
                    lemma_dot_seg_bound(a@, b@, i as int, j as int, 0, k as int, bd, bd);
                    let x = a@.entry(i as int, k as int);
                    let y = b@.entry(k as int, j as int);
                    assert(-(bd * bd) <= x * y <= bd * bd) by (nonlinear_arith)
                        requires
                            -bd <= x <= bd,
                            -bd <= y <= bd,
                            0 <= bd,
                    ;
                    assert((k as int + 1) * (bd * bd) == (k as int) * (bd * bd) + bd * bd)
                        by (nonlinear_arith);
                    lemma_mul_le(k as int + 1, n as int, bd * bd);
                }
                let v = c.get(i, j) + a.get(i, k) * b.get(k, j);
                c.set(i, j, v);
                i = i + 1;
            }
            k = k + 1;
        }
        j = j + 1;
    }
    proof {
        lemma_view_ext(c@, view_mul(a@, b@));
    }
    c
}

/// The triple-loop multiplier with its dimension validation: rejects the
/// request, naming all four dimensions, whenever the shared dimension does not
/// agree, and otherwise returns exactly the product.
pub fn iterative_matmul(a: &Matrix, b: &Matrix) -> (r: Result<Matrix, MatmulError>)
    requires
        a.wf(),
        b.wf(),
        a.cols == b.rows ==> mul_fits(a@, b@) && a.rows * b.cols <= usize::MAX,
    ensures
        match r {
            Ok(c) => a.cols == b.rows && c.wf() && c.rows == a.rows && c.cols == b.cols && c@
                == view_mul(a@, b@),
            Err(e) => a.cols != b.rows && e == (MatmulError::DimensionMismatch {
                a_rows: a.rows,
                a_cols: a.cols,
                b_rows: b.rows,
                b_cols: b.cols,
            }),
        },
{
    if a.cols != b.rows {
        return Err(
            MatmulError::DimensionMismatch {
                a_rows: a.rows,
                a_cols: a.cols,
                b_rows: b.rows,
                b_cols: b.cols,
            },
        );
    }
    Ok(iterative_mul(a, b))
}

/// The naive product in row-by-row order, with a scalar accumulator: an
/// independently coded reference the other multipliers can be compared
/// against. Its contract coincides with theirs.
#[verifier::loop_isolation(false)]
pub fn reference_matmul(a: &Matrix, b: &Matrix) -> (c: Matrix)
    requires
        a.wf(),
        b.wf(),
        a.cols == b.rows,
        mul_fits(a@, b@),
        a.rows * b.cols <= usize::MAX,
    ensures
        c.wf(),
        c.rows == a.rows,
        c.cols == b.cols,
        c@ == view_mul(a@, b@),
{
    let m = a.rows;
    let n = a.cols;
    let p = b.cols;
    let ghost bd = choose|bd: int|
        0 <= bd && a@.bounded(bd) && b@.bounded(bd) && (a@.cols as int) * (bd * bd) <= i64::MAX;
    let mut c = Matrix::new(m, p);
    let mut i: usize = 0;
    while i < m
        invariant
            i <= m,
            c.wf(),
            c.rows == m,
            c.cols == p,
            forall|ii: int, jj: int|
                0 <= ii < i && 0 <= jj < p ==> #[trigger] c@.entry(ii, jj) == dot_seg(
                    a@,
                    b@,
                    ii,
                    jj,
                    0,
                    n as int,
                ),
        decreases m - i,
    {
        let mut j: usize = 0;
        while j < p
            invariant
                j <= p,
                c.wf(),
                c.rows == m,
                c.cols == p,
                forall|ii: int, jj: int|
                    0 <= ii < i && 0 <= jj < p ==> #[trigger] c@.entry(ii, jj) == dot_seg(
                        a@,
                        b@,
                        ii,
                        jj,
                        0,
                        n as int,
                    ),
                forall|jj: int|
                    0 <= jj < j ==> #[trigger] c@.entry(i as int, jj) == dot_seg(
                        a@,
                        b@,
                        i as int,
                        jj,
                        0,
                        n as int,
                    ),
            decreases p - j,
        {
            let mut s: i64 = 0;
            let mut k: usize = 0;
            while k < n
                invariant
                    k <= n,
                    s as int == dot_seg(a@, b@, i as int, j as int, 0, k as int),
                decreases n - k,
            {
                proof {
                    lemma_dot_seg_bound(a@, b@, i as int, j as int, 0, k as int, bd, bd);
                    let x = a@.entry(i as int, k as int);
                    let y = b@.entry(k as int, j as int);
                    assert(-(bd * bd) <= x * y <= bd * bd) by (nonlinear_arith)
                        requires
                            -bd <= x <= bd,
                            -bd <= y <= bd,
                            0 <= bd,
                    ;
                    assert((k as int + 1) * (bd * bd) == (k as int) * (bd * bd) + bd * bd)
                        by (nonlinear_arith);
                    lemma_mul_le(k as int + 1, n as int, bd * bd);
                }
                s = s + a.get(i, k) * b.get(k, j);
                k = k + 1;
            }
            c.set(i, j, s);
            j = j + 1;
        }
        i = i + 1;
    }
    proof {
        lemma_view_ext(c@, view_mul(a@, b@));
    }
    c
}

} // verus!
