//! Divide-and-conquer multiplication: split both operands into quadrants,
//! recursively form the eight block products, sum them pairwise, and recombine.
//! Below the size threshold it delegates to the triple-loop multiplier. The
//! eight sub-products are independent and can be dispatched as parallel tasks.

use vstd::prelude::*;
use rayon::iter::{IntoParallelIterator, ParallelIterator};
use crate::matrix::{Matrix, MatrixView};
use crate::model::{
    view_mul, lemma_mul_block_split, lemma_mul_bounded, lemma_mul_le, lemma_mul_le_both,
    lemma_submatrix_bounded,
};
use crate::iterative_matmul::{iterative_mul, mul_fits};
use crate::error::MatmulError;

verus! {

/// A pair of operands ready to multiply: well-formed, conformal, and small
/// enough for the arithmetic and the allocation.
pub open spec fn pair_ok(pr: (Matrix, Matrix)) -> bool {
    &&& pr.0.wf()
    &&& pr.1.wf()
    &&& pr.0.cols == pr.1.rows
    &&& mul_fits(pr.0@, pr.1@)
    &&& pr.0.rows * pr.1.cols <= usize::MAX
}

/// Relies on rayon's parallel iterator (`into_par_iter`, `map`, `collect`): it
/// runs the recursive multiplier on each pair as an independent task, joins
/// them all, and collects the results in the order of the pairs.
#[verifier::external_body]
fn par_multiply_dc(pairs: Vec<(Matrix, Matrix)>, threshold: usize) -> (r: Vec<Matrix>)
    requires
        threshold >= 1,
        forall|t: int| 0 <= t < pairs@.len() ==> pair_ok(#[trigger] pairs@[t]),
    ensures
        r@.len() == pairs@.len(),
        forall|t: int|
            0 <= t < pairs@.len() ==> {
                &&& (#[trigger] r@[t]).wf()
                &&& r@[t].rows == pairs@[t].0.rows
                &&& r@[t].cols == pairs@[t].1.cols
                &&& r@[t]@ == view_mul(pairs@[t].0@, pairs@[t].1@)
            },
{
    pairs
        .into_par_iter()
        .map(|pr| divide_conquer_recursive(&pr.0, &pr.1, threshold, true))
        .collect()
}

/// Relies on rayon's `current_num_threads`: the number of workers in the
/// current thread pool, which rayon keeps at one or more.
#[verifier::external_body]
pub(crate) fn worker_count() -> (r: usize)
    ensures
        1 <= r,
{
    rayon::current_num_threads()
}

/// The sum of two block products of `bd`-bounded operands stays within `i64`
/// whenever the two inner dimensions together stay under a fitting total.
proof fn lemma_sum_of_products_fits(
    x: MatrixView,
    y: MatrixView,
    u: MatrixView,
    v: MatrixView,
    bd: int,
    n: int,
)
    requires
        x.wf(),
        y.wf(),
        u.wf(),
        v.wf(),
        x.cols == y.rows,
        u.cols == v.rows,
        x.rows == u.rows,
        y.cols == v.cols,
        0 <= bd,
        x.bounded(bd),
        y.bounded(bd),
        u.bounded(bd),
        v.bounded(bd),
        x.cols as int + u.cols as int <= n,
        n * (bd * bd) <= i64::MAX,
    ensures
        forall|i: int, j: int|
            0 <= i < x.rows && 0 <= j < y.cols ==> i64::MIN <= #[trigger] view_mul(x, y).entry(
                i,
                j,
            ) + view_mul(u, v).entry(i, j) <= i64::MAX,
{
    lemma_mul_bounded(x, y, bd);
    lemma_mul_bounded(u, v, bd);
    let xc = x.cols as int;
    let uc = u.cols as int;
    assert(xc * (bd * bd) + uc * (bd * bd) == (xc + uc) * (bd * bd)) by (nonlinear_arith);
    lemma_mul_le(xc + uc, n, bd * bd);
    assert forall|i: int, j: int|
        0 <= i < x.rows && 0 <= j < y.cols implies i64::MIN <= #[trigger] view_mul(x, y).entry(
        i,
        j,
    ) + view_mul(u, v).entry(i, j) <= i64::MAX by {
        assert(-(xc * (bd * bd)) <= view_mul(x, y).entry(i, j) <= xc * (bd * bd));
        assert(-(uc * (bd * bd)) <= view_mul(u, v).entry(i, j) <= uc * (bd * bd));
    }
}

/// One recursion step: below the threshold delegate to the triple loop, else
/// split into quadrants, multiply the eight block pairs (sequentially, or as
/// eight parallel tasks joined before the sums), sum them pairwise, and
/// recombine. Returns exactly the product.
pub fn divide_conquer_recursive(a: &Matrix, b: &Matrix, threshold: usize, parallel: bool) -> (c:
    Matrix)
    requires
        a.wf(),
        b.wf(),
        a.cols == b.rows,
        threshold >= 1,
        mul_fits(a@, b@),
        a.rows * b.cols <= usize::MAX,
    ensures
        c.wf(),
        c.rows == a.rows,
        c.cols == b.cols,
        c@ == view_mul(a@, b@),
    decreases a.rows + a.cols + b.cols,
{
    let m = a.rows;
    let n = a.cols;
    let p = b.cols;
    if m <= threshold || n <= threshold || p <= threshold {
        return iterative_mul(a, b);
    }
    let mh = m / 2;
    let nh = n / 2;
    let ph = p / 2;
    let ghost bd = choose|bd: int|
        0 <= bd && a@.bounded(bd) && b@.bounded(bd) && (a@.cols as int) * (bd * bd) <= i64::MAX;
    let a11 = a.submatrix(0, mh, 0, nh);
    let a12 = a.submatrix(0, mh, nh, n);
    let a21 = a.submatrix(mh, m, 0, nh);
    let a22 = a.submatrix(mh, m, nh, n);
    let b11 = b.submatrix(0, nh, 0, ph);
    let b12 = b.submatrix(0, nh, ph, p);
    let b21 = b.submatrix(nh, n, 0, ph);
    let b22 = b.submatrix(nh, n, ph, p);
    let ghost a11v = a11@;
    let ghost a12v = a12@;
    let ghost a21v = a21@;
    let ghost a22v = a22@;
    let ghost b11v = b11@;
    let ghost b12v = b12@;
    let ghost b21v = b21@;
    let ghost b22v = b22@;
    proof {
        lemma_submatrix_bounded(a@, 0, mh as int, 0, nh as int, bd);
        lemma_submatrix_bounded(a@, 0, mh as int, nh as int, n as int, bd);
        lemma_submatrix_bounded(a@, mh as int, m as int, 0, nh as int, bd);
        lemma_submatrix_bounded(a@, mh as int, m as int, nh as int, n as int, bd);
        lemma_submatrix_bounded(b@, 0, nh as int, 0, ph as int, bd);
        lemma_submatrix_bounded(b@, 0, nh as int, ph as int, p as int, bd);
        lemma_submatrix_bounded(b@, nh as int, n as int, 0, ph as int, bd);
        lemma_submatrix_bounded(b@, nh as int, n as int, ph as int, p as int, bd);
        lemma_mul_le(nh as int, n as int, bd * bd);
        lemma_mul_le(n as int - nh as int, n as int, bd * bd);
        assert(mul_fits(a11v, b11v)) by {
            assert(0 <= bd && a11v.bounded(bd) && b11v.bounded(bd) && (a11v.cols as int) * (bd
                * bd) <= i64::MAX);
        }
        assert(mul_fits(a11v, b12v)) by {
            assert(0 <= bd && a11v.bounded(bd) && b12v.bounded(bd) && (a11v.cols as int) * (bd
                * bd) <= i64::MAX);
        }
        assert(mul_fits(a12v, b21v)) by {
            assert(0 <= bd && a12v.bounded(bd) && b21v.bounded(bd) && (a12v.cols as int) * (bd
                * bd) <= i64::MAX);
        }
        assert(mul_fits(a12v, b22v)) by {
            assert(0 <= bd && a12v.bounded(bd) && b22v.bounded(bd) && (a12v.cols as int) * (bd
                * bd) <= i64::MAX);
        }
        assert(mul_fits(a21v, b11v)) by {
            assert(0 <= bd && a21v.bounded(bd) && b11v.bounded(bd) && (a21v.cols as int) * (bd
                * bd) <= i64::MAX);
        }
        assert(mul_fits(a21v, b12v)) by {
            assert(0 <= bd && a21v.bounded(bd) && b12v.bounded(bd) && (a21v.cols as int) * (bd
                * bd) <= i64::MAX);
        }
        assert(mul_fits(a22v, b21v)) by {
            assert(0 <= bd && a22v.bounded(bd) && b21v.bounded(bd) && (a22v.cols as int) * (bd
                * bd) <= i64::MAX);
        }
        assert(mul_fits(a22v, b22v)) by {
            assert(0 <= bd && a22v.bounded(bd) && b22v.bounded(bd) && (a22v.cols as int) * (bd
                * bd) <= i64::MAX);
        }
        lemma_mul_le_both(mh as int, m as int, ph as int, p as int);
        lemma_mul_le_both(mh as int, m as int, p as int - ph as int, p as int);
        lemma_mul_le_both(m as int - mh as int, m as int, ph as int, p as int);
        lemma_mul_le_both(m as int - mh as int, m as int, p as int - ph as int, p as int);
    }
    let (mut c11, mut c12, mut c21, mut c22) = if parallel {
        let mut pairs: Vec<(Matrix, Matrix)> = Vec::new();
        pairs.push((a11.duplicate(), b11.duplicate()));
        pairs.push((a12.duplicate(), b21.duplicate()));
        pairs.push((a11, b12.duplicate()));
        pairs.push((a12, b22.duplicate()));
        pairs.push((a21.duplicate(), b11));
        pairs.push((a22.duplicate(), b21));
        pairs.push((a21, b12));
        pairs.push((a22, b22));
        let mut results = par_multiply_dc(pairs, threshold);
        let r8 = results.pop().unwrap();
        let r7 = results.pop().unwrap();
        let r6 = results.pop().unwrap();
        let r5 = results.pop().unwrap();
        let r4 = results.pop().unwrap();
        let r3 = results.pop().unwrap();
        let r2 = results.pop().unwrap();
        let mut c11 = results.pop().unwrap();
        proof {
            lemma_sum_of_products_fits(a11v, b11v, a12v, b21v, bd, n as int);
        }
        c11.add(&r2);
        let mut c12 = r3;
        proof {
            lemma_sum_of_products_fits(a11v, b12v, a12v, b22v, bd, n as int);
        }
        c12.add(&r4);
        let mut c21 = r5;
        proof {
            lemma_sum_of_products_fits(a21v, b11v, a22v, b21v, bd, n as int);
        }
        c21.add(&r6);
        let mut c22 = r7;
        proof {
            lemma_sum_of_products_fits(a21v, b12v, a22v, b22v, bd, n as int);
        }
        c22.add(&r8);
        (c11, c12, c21, c22)
    } else {
        let mut c11 = divide_conquer_recursive(&a11, &b11, threshold, parallel);
        let p2 = divide_conquer_recursive(&a12, &b21, threshold, parallel);
        proof {
            lemma_sum_of_products_fits(a11v, b11v, a12v, b21v, bd, n as int);
        }
        c11.add(&p2);
        let mut c12 = divide_conquer_recursive(&a11, &b12, threshold, parallel);
        let p4 = divide_conquer_recursive(&a12, &b22, threshold, parallel);
        proof {
            lemma_sum_of_products_fits(a11v, b12v, a12v, b22v, bd, n as int);
        }
        c12.add(&p4);
        let mut c21 = divide_conquer_recursive(&a21, &b11, threshold, parallel);
        let p6 = divide_conquer_recursive(&a22, &b21, threshold, parallel);
        proof {
            lemma_sum_of_products_fits(a21v, b11v, a22v, b21v, bd, n as int);
        }
        c21.add(&p6);
        let mut c22 = divide_conquer_recursive(&a21, &b12, threshold, parallel);
        let p8 = divide_conquer_recursive(&a22, &b22, threshold, parallel);
        proof {
            lemma_sum_of_products_fits(a21v, b12v, a22v, b22v, bd, n as int);
        }
        c22.add(&p8);
        (c11, c12, c21, c22)
    };
    let c = Matrix::combine_quadrants(&c11, &c12, &c21, &c22);
    proof {
        lemma_mul_block_split(a@, b@, mh as int, nh as int, ph as int);
    }
    c
}

/// Divide-and-conquer multiplication with an explicit worker count: rejects a
/// dimension mismatch with all four dimensions; rejects parallel mode when
/// fewer than two workers are available; otherwise returns exactly the
/// product. The result does not depend on the mode.
pub fn divide_conquer_with_workers(
    a: &Matrix,
    b: &Matrix,
    threshold: usize,
    parallel: bool,
    workers: usize,
) -> (r: Result<Matrix, MatmulError>)
    requires
        a.wf(),
        b.wf(),
        threshold >= 1,
        a.cols == b.rows ==> mul_fits(a@, b@) && a.rows * b.cols <= usize::MAX,
    ensures
        match r {
            Ok(c) => {
                &&& a.cols == b.rows
                &&& !(parallel && workers < 2)
                &&& c.wf()
                &&& c.rows == a.rows
                &&& c.cols == b.cols
                &&& c@ == view_mul(a@, b@)
            },
            Err(e) => match e {
                MatmulError::DimensionMismatch { a_rows, a_cols, b_rows, b_cols } => {
                    &&& a.cols != b.rows
                    &&& a_rows == a.rows
                    &&& a_cols == a.cols
                    &&& b_rows == b.rows
                    &&& b_cols == b.cols
                },
                MatmulError::Configuration { workers: w } => {
                    &&& a.cols == b.rows
                    &&& parallel
                    &&& workers < 2
                    &&& w == workers
                },
            },
        },
{
    if a.cols != b.rows {
        return Err(
            MatmulError::DimensionMismatch {
                a_rows: a.rows,
                a_cols: a.cols,
                b_rows: b.rows,
                b_cols: b.cols,
            },
        );
    }
    if parallel && workers < 2 {
        return Err(MatmulError::Configuration { workers });
    }
    Ok(divide_conquer_recursive(a, b, threshold, parallel))
}

/// Divide-and-conquer multiplication. In parallel mode the thread pool is
/// consulted first: with fewer than two workers the request is refused as a
/// configuration error before any computation. Sequential mode always returns
/// exactly the product for conformal operands.
pub fn divide_conquer_matmul(a: &Matrix, b: &Matrix, threshold: usize, parallel: bool) -> (r:
    Result<Matrix, MatmulError>)
    requires
        a.wf(),
        b.wf(),
        threshold >= 1,
        a.cols == b.rows ==> mul_fits(a@, b@) && a.rows * b.cols <= usize::MAX,
    ensures
        match r {
            Ok(c) => {
                &&& a.cols == b.rows
                &&& c.wf()
                &&& c.rows == a.rows
                &&& c.cols == b.cols
                &&& c@ == view_mul(a@, b@)
            },
            Err(e) => match e {
                MatmulError::DimensionMismatch { a_rows, a_cols, b_rows, b_cols } => {
                    &&& a.cols != b.rows
                    &&& a_rows == a.rows
                    &&& a_cols == a.cols
                    &&& b_rows == b.rows
                    &&& b_cols == b.cols
                },
                MatmulError::Configuration { workers } => {
                    &&& a.cols == b.rows
                    &&& parallel
                    &&& workers < 2
                },
            },
        },
        !parallel && a.cols == b.rows ==> r is Ok,
{
    let w = worker_count();
    divide_conquer_with_workers(a, b, threshold, parallel, w)
}

} // verus!
