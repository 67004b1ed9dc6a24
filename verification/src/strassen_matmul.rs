//! Strassen multiplication: split both operands into quadrants, form seven
//! products of sums and differences of quadrants, and recombine them by the
//! fixed linear combinations that reconstruct the four result quadrants. Below
//! the size threshold it delegates to the triple-loop multiplier. An operand
//! with an odd dimension is first padded with one zero row or column so the
//! quadrants are conformal; the result is trimmed back afterwards. The seven
//! products are independent and can be dispatched as parallel tasks.

use vstd::prelude::*;
use rayon::iter::{IntoParallelIterator, ParallelIterator};
use crate::matrix::{Matrix, MatrixView};
use crate::model::{
    view_mul, view_pad, view_add, view_sub, view_submatrix, lemma_mul_block_split,
    lemma_strassen_combine, lemma_mul_pad, lemma_mul_bounded, lemma_add_bounded,
    lemma_sub_bounded, lemma_pad_bounded, lemma_bounded_mono, lemma_bounded_pair_fits,
    lemma_submatrix_bounded, lemma_mul_le, lemma_mul_le_both, lemma_view_ext,
};
use crate::iterative_matmul::{iterative_mul, mul_fits};
use crate::divide_conquer_matmul::worker_count;
use crate::error::MatmulError;

verus! {

/// The largest of three values.
pub open spec fn max3(x: int, y: int, z: int) -> int {
    if x >= y && x >= z {
        x
    } else if y >= z {
        y
    } else {
        z
    }
}

/// Room for Strassen's growing intermediates: quadrant sums double the element
/// bound at each splitting level and there are at most logarithmically many
/// levels, so a quartic factor in the largest dimension covers every value
/// that is ever stored.
pub open spec fn strassen_room(nm: int, bd: int) -> bool {
    4 * (nm * nm * nm * nm) * (bd * bd) <= i64::MAX
}

/// Some one element bound `bd` covers both operands and leaves room for every
/// intermediate of the Strassen recursion. This is the machine-size condition
/// under which this multiplier is proved free of overflow.
pub open spec fn strassen_fits(a: MatrixView, b: MatrixView) -> bool {
    exists|bd: int|
        0 <= bd && a.bounded(bd) && b.bounded(bd) && strassen_room(
            max3(a.rows as int, a.cols as int, b.cols as int),
            bd,
        )
}

/// Every buffer allocated along the recursion — padded operands included —
/// stays within address range.
pub open spec fn strassen_alloc_ok(a: Matrix, b: Matrix) -> bool {
    ({
        let nm = max3(a.rows as int, a.cols as int, b.cols as int);
        (nm + 1) * (nm + 1) <= usize::MAX
    })
}

/// A pair of operands ready for the Strassen recursion.
pub open spec fn strassen_pair_ok(pr: (Matrix, Matrix)) -> bool {
    &&& pr.0.wf()
    &&& pr.1.wf()
    &&& pr.0.cols == pr.1.rows
    &&& strassen_fits(pr.0@, pr.1@)
    &&& strassen_alloc_ok(pr.0, pr.1)
}

/// Halving the largest dimension makes room for a doubled element bound.
proof fn lemma_room_half(nm: int, c: int, bd: int)
    requires
        nm >= 2,
        0 <= c,
        2 * c <= nm + 1,
        0 <= bd,
        strassen_room(nm, bd),
    ensures
        strassen_room(c, 2 * bd),
{
    if c <= 1 {
        assert(2 * (c * c) <= nm * nm) by (nonlinear_arith)
            requires
                nm >= 2,
                0 <= c <= 1,
        ;
    } else {
        assert(2 * (c * c) <= nm * nm) by (nonlinear_arith)
            requires
                c >= 2,
                2 * c <= nm + 1,
        ;
    }
    lemma_mul_le_both(2 * (c * c), nm * nm, 2 * (c * c), nm * nm);
    assert((2 * (c * c)) * (2 * (c * c)) == 4 * (c * c * c * c)) by (nonlinear_arith);
    assert((nm * nm) * (nm * nm) == nm * nm * nm * nm) by (nonlinear_arith);
    lemma_mul_le(4 * (c * c * c * c), nm * nm * nm * nm, 4 * (bd * bd));
    assert(4 * (c * c * c * c) * ((2 * bd) * (2 * bd)) == (4 * (c * c * c * c)) * (4 * (bd * bd)))
        by (nonlinear_arith);
    assert((nm * nm * nm * nm) * (4 * (bd * bd)) == 4 * (nm * nm * nm * nm) * (bd * bd))
        by (nonlinear_arith);
}

/// A pair of conformal Strassen operands with a shared bound and room for the
/// recursion is a fitting pair.
proof fn lemma_fits_pair(x: MatrixView, y: MatrixView, bd2: int, cm: int)
    requires
        0 <= bd2,
        x.bounded(bd2),
        y.bounded(bd2),
        max3(x.rows as int, x.cols as int, y.cols as int) == cm,
        strassen_room(cm, bd2),
    ensures
        strassen_fits(x, y),
{
    assert(0 <= bd2 && x.bounded(bd2) && y.bounded(bd2) && strassen_room(
        max3(x.rows as int, x.cols as int, y.cols as int),
        bd2,
    ));
}

/// `m` extended with zero rows and columns on the bottom and the right to the
/// given shape, as an independently owned matrix.
#[verifier::loop_isolation(false)]
fn pad(m: &Matrix, rows: usize, cols: usize) -> (r: Matrix)
    requires
        m.wf(),
        m.rows <= rows,
        m.cols <= cols,
        rows * cols <= usize::MAX,
    ensures
        r.wf(),
        r.rows == rows,
        r.cols == cols,
        r@ == view_pad(m@, rows as nat, cols as nat),
{
    let ghost pv = view_pad(m@, rows as nat, cols as nat);
    let mut data: Vec<i64> = Vec::new();
    let mut j: usize = 0;
    while j < cols
        invariant
            j <= cols,
            data@.len() == j * rows,
            forall|jj: int, ii: int|
                0 <= jj < j && 0 <= ii < rows ==> #[trigger] data@[jj * rows + ii] == pv.entry(
                    ii,
                    jj,
                ),
        decreases cols - j,
    {
        let mut i: usize = 0;
        while i < rows
            invariant
                i <= rows,
                j < cols,
                data@.len() == j * rows + i,
                forall|jj: int, ii: int|
                    0 <= jj < j && 0 <= ii < rows ==> #[trigger] data@[jj * rows + ii] == pv.entry(
                        ii,
                        jj,
                    ),
                forall|ii: int|
                    0 <= ii < i ==> #[trigger] data@[j * rows + ii] == pv.entry(ii, j as int),
            decreases rows - i,
        {
            let v = if i < m.rows && j < m.cols {
                m.get(i, j)
            } else {
                0
            };
            assert(v as int == pv.entry(i as int, j as int));
            let ghost pre = data@;
            data.push(v);
            proof {
                assert forall|jj: int, ii: int|
                    0 <= jj < j && 0 <= ii < rows implies #[trigger] data@[jj * rows + ii]
                        == pv.entry(ii, jj) by {
                    crate::matrix::lemma_flat_index(ii, jj, rows as int, j as int);
                    assert((rows as int) * (j as int) == (j as int) * (rows as int))
                        by (nonlinear_arith);
                    assert(data@[jj * rows + ii] == pre[jj * rows + ii]);
                }
            }
            i = i + 1;
        }
        proof {
            assert((j + 1) * rows == j * rows + rows) by (nonlinear_arith);
        }
        j = j + 1;
    }
    let r = Matrix { data, rows, cols };
    proof {
        assert(cols * rows == rows * cols) by (nonlinear_arith);
        assert forall|i: int, j: int|
            0 <= i < r.rows && 0 <= j < r.cols implies r@.entry(i, j) == #[trigger] pv.entry(
            i,
            j,
        ) by {
            crate::matrix::lemma_flat_index(i, j, rows as int, cols as int);
        }
        lemma_view_ext(r@, pv);
    }
    r
}

/// The elementwise sum of two bounded matrices, as a new matrix.
fn mat_sum(x: &Matrix, y: &Matrix, bx: Ghost<int>, by: Ghost<int>) -> (r: Matrix)
    requires
        x.wf(),
        y.wf(),
        x.rows == y.rows,
        x.cols == y.cols,
        0 <= bx@,
        0 <= by@,
        bx@ + by@ <= i64::MAX,
        x@.bounded(bx@),
        y@.bounded(by@),
    ensures
        r.wf(),
        r.rows == x.rows,
        r.cols == x.cols,
        r@ == view_add(x@, y@),
        r@.bounded(bx@ + by@),
{
    proof {
        lemma_bounded_pair_fits(x@, y@, bx@, by@);
        lemma_add_bounded(x@, y@, bx@, by@);
    }
    let mut r = x.duplicate();
    r.add(y);
    r
}

/// The elementwise difference of two bounded matrices, as a new matrix.
fn mat_diff(x: &Matrix, y: &Matrix, bx: Ghost<int>, by: Ghost<int>) -> (r: Matrix)
    requires
        x.wf(),
        y.wf(),
        x.rows == y.rows,
        x.cols == y.cols,
        0 <= bx@,
        0 <= by@,
        bx@ + by@ <= i64::MAX,
        x@.bounded(bx@),
        y@.bounded(by@),
    ensures
        r.wf(),
        r.rows == x.rows,
        r.cols == x.cols,
        r@ == view_sub(x@, y@),
        r@.bounded(bx@ + by@),
{
    proof {
        lemma_bounded_pair_fits(x@, y@, bx@, by@);
        lemma_sub_bounded(x@, y@, bx@, by@);
    }
    let mut r = x.duplicate();
    r.sub(y);
    r
}

/// Relies on rayon's parallel iterator (`into_par_iter`, `map`, `collect`): it
/// runs the Strassen recursion on each pair as an independent task, joins them
/// all, and collects the results in the order of the pairs.
#[verifier::external_body]
fn par_multiply_strassen(pairs: Vec<(Matrix, Matrix)>, threshold: usize) -> (r: Vec<Matrix>)
    requires
        threshold >= 1,
        forall|t: int| 0 <= t < pairs@.len() ==> strassen_pair_ok(#[trigger] pairs@[t]),
    ensures
        r@.len() == pairs@.len(),
        forall|t: int|
            0 <= t < pairs@.len() ==> {
                &&& (#[trigger] r@[t]).wf()
                &&& r@[t].rows == pairs@[t].0.rows
                &&& r@[t].cols == pairs@[t].1.cols
                &&& r@[t]@ == view_mul(pairs@[t].0@, pairs@[t].1@)
            },
{
    pairs
        .into_par_iter()
        .map(|pr| strassen_recursive(&pr.0, &pr.1, threshold, true))
        .collect()
}

/// The seven Strassen products of the quadrants of even-shaped operands,
/// computed recursively — sequentially, or as seven independent parallel tasks
/// joined on return.
#[verifier::rlimit(100)]
#[verifier::spinoff_prover]
fn strassen_products(
    ap: &Matrix,
    bp: &Matrix,
    threshold: usize,
    parallel: bool,
    bd: Ghost<int>,
    nm: Ghost<int>,
) -> (r: (Matrix, Matrix, Matrix, Matrix, Matrix, Matrix, Matrix))
    requires
        ap.wf(),
        bp.wf(),
        ap.cols == bp.rows,
        threshold >= 1,
        ap.rows % 2 == 0,
        ap.cols % 2 == 0,
        bp.cols % 2 == 0,
        ap.rows >= 2,
        ap.cols >= 2,
        bp.cols >= 2,
        0 <= bd@,
        ap@.bounded(bd@),
        bp@.bounded(bd@),
        nm@ >= 2,
        ap.rows <= nm@ + 1,
        ap.cols <= nm@ + 1,
        bp.cols <= nm@ + 1,
        strassen_room(nm@, bd@),
        (nm@ + 1) * (nm@ + 1) <= usize::MAX,
    ensures
        ({
            let mh = ap.rows as int / 2;
            let nh = ap.cols as int / 2;
            let ph = bp.cols as int / 2;
            let a11 = view_submatrix(ap@, 0, mh, 0, nh);
            let a12 = view_submatrix(ap@, 0, mh, nh, ap.cols as int);
            let a21 = view_submatrix(ap@, mh, ap.rows as int, 0, nh);
            let a22 = view_submatrix(ap@, mh, ap.rows as int, nh, ap.cols as int);
            let b11 = view_submatrix(bp@, 0, nh, 0, ph);
            let b12 = view_submatrix(bp@, 0, nh, ph, bp.cols as int);
            let b21 = view_submatrix(bp@, nh, bp.rows as int, 0, ph);
            let b22 = view_submatrix(bp@, nh, bp.rows as int, ph, bp.cols as int);
            &&& r.0.wf() && r.0.rows == mh && r.0.cols == ph
            &&& r.0@ == view_mul(view_add(a11, a22), view_add(b11, b22))
            &&& r.1.wf() && r.1.rows == mh && r.1.cols == ph
            &&& r.1@ == view_mul(view_add(a21, a22), b11)
            &&& r.2.wf() && r.2.rows == mh && r.2.cols == ph
            &&& r.2@ == view_mul(a11, view_sub(b12, b22))
            &&& r.3.wf() && r.3.rows == mh && r.3.cols == ph
            &&& r.3@ == view_mul(a22, view_sub(b21, b11))
            &&& r.4.wf() && r.4.rows == mh && r.4.cols == ph
            &&& r.4@ == view_mul(view_add(a11, a12), b22)
            &&& r.5.wf() && r.5.rows == mh && r.5.cols == ph
            &&& r.5@ == view_mul(view_sub(a21, a11), view_add(b11, b12))
            &&& r.6.wf() && r.6.rows == mh && r.6.cols == ph
            &&& r.6@ == view_mul(view_sub(a12, a22), view_add(b21, b22))
        }),
    decreases ap.rows / 2 + ap.cols / 2 + bp.cols / 2, 1int,
{
    let m2 = ap.rows;
    let n2 = ap.cols;
    let p2 = bp.cols;
    let mh = m2 / 2;
    let nh = n2 / 2;
    let ph = p2 / 2;
    proof {
        assert(2 * (mh as int) == m2 as int && 2 * (nh as int) == n2 as int && 2 * (ph as int)
            == p2 as int);
        assert(bd@ + bd@ <= i64::MAX) by (nonlinear_arith)
            requires
                0 <= bd@,
                nm@ >= 2,
                4 * (nm@ * nm@ * nm@ * nm@) * (bd@ * bd@) <= i64::MAX,
        ;
    }
    let a11 = ap.submatrix(0, mh, 0, nh);
    let a12 = ap.submatrix(0, mh, nh, n2);
    let a21 = ap.submatrix(mh, m2, 0, nh);
    let a22 = ap.submatrix(mh, m2, nh, n2);
    let b11 = bp.submatrix(0, nh, 0, ph);
    let b12 = bp.submatrix(0, nh, ph, p2);
    let b21 = bp.submatrix(nh, n2, 0, ph);
    let b22 = bp.submatrix(nh, n2, ph, p2);
    proof {
        lemma_submatrix_bounded(ap@, 0, mh as int, 0, nh as int, bd@);
        lemma_submatrix_bounded(ap@, 0, mh as int, nh as int, n2 as int, bd@);
        lemma_submatrix_bounded(ap@, mh as int, m2 as int, 0, nh as int, bd@);
        lemma_submatrix_bounded(ap@, mh as int, m2 as int, nh as int, n2 as int, bd@);
        lemma_submatrix_bounded(bp@, 0, nh as int, 0, ph as int, bd@);
        lemma_submatrix_bounded(bp@, 0, nh as int, ph as int, p2 as int, bd@);
        lemma_submatrix_bounded(bp@, nh as int, n2 as int, 0, ph as int, bd@);
        lemma_submatrix_bounded(bp@, nh as int, n2 as int, ph as int, p2 as int, bd@);
    }
    let x1 = mat_sum(&a11, &a22, bd, bd);
    let y1 = mat_sum(&b11, &b22, bd, bd);
    let x2 = mat_sum(&a21, &a22, bd, bd);
    let y3 = mat_diff(&b12, &b22, bd, bd);
    let y4 = mat_diff(&b21, &b11, bd, bd);
    let x5 = mat_sum(&a11, &a12, bd, bd);
    let x6 = mat_diff(&a21, &a11, bd, bd);
    let y6 = mat_sum(&b11, &b12, bd, bd);
    let x7 = mat_diff(&a12, &a22, bd, bd);
    let y7 = mat_sum(&b21, &b22, bd, bd);
    let ghost cm = max3(mh as int, nh as int, ph as int);
    proof {
        lemma_bounded_mono(a11@, bd@, bd@ + bd@);
        lemma_bounded_mono(a22@, bd@, bd@ + bd@);
        lemma_bounded_mono(b11@, bd@, bd@ + bd@);
        lemma_bounded_mono(b22@, bd@, bd@ + bd@);
        lemma_room_half(nm@, cm, bd@);
        lemma_fits_pair(x1@, y1@, 2 * bd@, cm);
        lemma_fits_pair(x2@, b11@, 2 * bd@, cm);
        lemma_fits_pair(a11@, y3@, 2 * bd@, cm);
        lemma_fits_pair(a22@, y4@, 2 * bd@, cm);
        lemma_fits_pair(x5@, b22@, 2 * bd@, cm);
        lemma_fits_pair(x6@, y6@, 2 * bd@, cm);
        lemma_fits_pair(x7@, y7@, 2 * bd@, cm);
        lemma_mul_le_both(cm + 1, nm@ + 1, cm + 1, nm@ + 1);
    }
    if parallel {
        let mut pairs: Vec<(Matrix, Matrix)> = Vec::new();
        pairs.push((x1, y1));
        pairs.push((x2, b11));
        pairs.push((a11, y3));
        pairs.push((a22, y4));
        pairs.push((x5, b22));
        pairs.push((x6, y6));
        pairs.push((x7, y7));
        let mut results = par_multiply_strassen(pairs, threshold);
        let m7 = results.pop().unwrap();
        let m6 = results.pop().unwrap();
        let m5 = results.pop().unwrap();
        let m4 = results.pop().unwrap();
        let m3 = results.pop().unwrap();
        let m2x = results.pop().unwrap();
        let m1 = results.pop().unwrap();
        (m1, m2x, m3, m4, m5, m6, m7)
    } else {
        let m1 = strassen_recursive(&x1, &y1, threshold, parallel);
        let m2x = strassen_recursive(&x2, &b11, threshold, parallel);
        let m3 = strassen_recursive(&a11, &y3, threshold, parallel);
        let m4 = strassen_recursive(&a22, &y4, threshold, parallel);
        let m5 = strassen_recursive(&x5, &b22, threshold, parallel);
        let m6 = strassen_recursive(&x6, &y6, threshold, parallel);
        let m7 = strassen_recursive(&x7, &y7, threshold, parallel);
        (m1, m2x, m3, m4, m5, m6, m7)
    }
}

/// Strassen's recombination of the seven quadrant products into the whole
/// product of the even-shaped operands.
#[verifier::rlimit(100)]
#[verifier::spinoff_prover]
fn strassen_finish(
    ap: &Matrix,
    bp: &Matrix,
    m1: Matrix,
    m2x: Matrix,
    m3: Matrix,
    m4: Matrix,
    m5: Matrix,
    m6: Matrix,
    m7: Matrix,
    bd: Ghost<int>,
) -> (cc: Matrix)
    requires
        ap.wf(),
        bp.wf(),
        ap.cols == bp.rows,
        ap.rows % 2 == 0,
        ap.cols % 2 == 0,
        bp.cols % 2 == 0,
        0 <= bd@,
        ap@.bounded(bd@),
        bp@.bounded(bd@),
        4 * ((ap.cols as int / 2) * ((2 * bd@) * (2 * bd@))) <= i64::MAX,
        ap.rows * bp.cols <= usize::MAX,
        m1.wf() && m1.rows == ap.rows as int / 2 && m1.cols == bp.cols as int / 2,
        m2x.wf() && m2x.rows == ap.rows as int / 2 && m2x.cols == bp.cols as int / 2,
        m3.wf() && m3.rows == ap.rows as int / 2 && m3.cols == bp.cols as int / 2,
        m4.wf() && m4.rows == ap.rows as int / 2 && m4.cols == bp.cols as int / 2,
        m5.wf() && m5.rows == ap.rows as int / 2 && m5.cols == bp.cols as int / 2,
        m6.wf() && m6.rows == ap.rows as int / 2 && m6.cols == bp.cols as int / 2,
        m7.wf() && m7.rows == ap.rows as int / 2 && m7.cols == bp.cols as int / 2,
        ({
            let mh = ap.rows as int / 2;
            let nh = ap.cols as int / 2;
            let ph = bp.cols as int / 2;
            let a11 = view_submatrix(ap@, 0, mh, 0, nh);
            let a12 = view_submatrix(ap@, 0, mh, nh, ap.cols as int);
            let a21 = view_submatrix(ap@, mh, ap.rows as int, 0, nh);
            let a22 = view_submatrix(ap@, mh, ap.rows as int, nh, ap.cols as int);
            let b11 = view_submatrix(bp@, 0, nh, 0, ph);
            let b12 = view_submatrix(bp@, 0, nh, ph, bp.cols as int);
            let b21 = view_submatrix(bp@, nh, bp.rows as int, 0, ph);
            let b22 = view_submatrix(bp@, nh, bp.rows as int, ph, bp.cols as int);
            &&& m1@ == view_mul(view_add(a11, a22), view_add(b11, b22))
            &&& m2x@ == view_mul(view_add(a21, a22), b11)
            &&& m3@ == view_mul(a11, view_sub(b12, b22))
            &&& m4@ == view_mul(a22, view_sub(b21, b11))
            &&& m5@ == view_mul(view_add(a11, a12), b22)
            &&& m6@ == view_mul(view_sub(a21, a11), view_add(b11, b12))
            &&& m7@ == view_mul(view_sub(a12, a22), view_add(b21, b22))
        }),
    ensures
        cc.wf(),
        cc.rows == ap.rows,
        cc.cols == bp.cols,
        cc@ == view_mul(ap@, bp@),
{
    let mh = ap.rows / 2;
    let nh = ap.cols / 2;
    let ph = bp.cols / 2;
    let ghost a11v = view_submatrix(ap@, 0, mh as int, 0, nh as int);
    let ghost a12v = view_submatrix(ap@, 0, mh as int, nh as int, ap.cols as int);
    let ghost a21v = view_submatrix(ap@, mh as int, ap.rows as int, 0, nh as int);
    let ghost a22v = view_submatrix(ap@, mh as int, ap.rows as int, nh as int, ap.cols as int);
    let ghost b11v = view_submatrix(bp@, 0, nh as int, 0, ph as int);
    let ghost b12v = view_submatrix(bp@, 0, nh as int, ph as int, bp.cols as int);
    let ghost b21v = view_submatrix(bp@, nh as int, bp.rows as int, 0, ph as int);
    let ghost b22v = view_submatrix(bp@, nh as int, bp.rows as int, ph as int, bp.cols as int);
    let ghost bigb = (nh as int) * ((2 * bd@) * (2 * bd@));
    proof {
        assert(2 * (mh as int) == ap.rows as int && 2 * (nh as int) == ap.cols as int && 2 * (
        ph as int) == bp.cols as int);
        lemma_submatrix_bounded(ap@, 0, mh as int, 0, nh as int, bd@);
        lemma_submatrix_bounded(ap@, 0, mh as int, nh as int, ap.cols as int, bd@);
        lemma_submatrix_bounded(ap@, mh as int, ap.rows as int, 0, nh as int, bd@);
        lemma_submatrix_bounded(ap@, mh as int, ap.rows as int, nh as int, ap.cols as int, bd@);
        lemma_submatrix_bounded(bp@, 0, nh as int, 0, ph as int, bd@);
        lemma_submatrix_bounded(bp@, 0, nh as int, ph as int, bp.cols as int, bd@);
        lemma_submatrix_bounded(bp@, nh as int, bp.rows as int, 0, ph as int, bd@);
        lemma_submatrix_bounded(bp@, nh as int, bp.rows as int, ph as int, bp.cols as int, bd@);
        lemma_add_bounded(a11v, a22v, bd@, bd@);
        lemma_add_bounded(b11v, b22v, bd@, bd@);
        lemma_add_bounded(a21v, a22v, bd@, bd@);
        lemma_sub_bounded(b12v, b22v, bd@, bd@);
        lemma_sub_bounded(b21v, b11v, bd@, bd@);
        lemma_add_bounded(a11v, a12v, bd@, bd@);
        lemma_sub_bounded(a21v, a11v, bd@, bd@);
        lemma_add_bounded(b11v, b12v, bd@, bd@);
        lemma_sub_bounded(a12v, a22v, bd@, bd@);
        lemma_add_bounded(b21v, b22v, bd@, bd@);
        lemma_bounded_mono(a11v, bd@, bd@ + bd@);
        lemma_bounded_mono(a22v, bd@, bd@ + bd@);
        lemma_bounded_mono(b11v, bd@, bd@ + bd@);
        lemma_bounded_mono(b22v, bd@, bd@ + bd@);
        lemma_mul_bounded(view_add(a11v, a22v), view_add(b11v, b22v), 2 * bd@);
        lemma_mul_bounded(view_add(a21v, a22v), b11v, 2 * bd@);
        lemma_mul_bounded(a11v, view_sub(b12v, b22v), 2 * bd@);
        lemma_mul_bounded(a22v, view_sub(b21v, b11v), 2 * bd@);
        lemma_mul_bounded(view_add(a11v, a12v), b22v, 2 * bd@);
        lemma_mul_bounded(view_sub(a21v, a11v), view_add(b11v, b12v), 2 * bd@);
        lemma_mul_bounded(view_sub(a12v, a22v), view_add(b21v, b22v), 2 * bd@);
        assert(0 <= bigb) by (nonlinear_arith)
            requires
                bigb == (nh as int) * ((2 * bd@) * (2 * bd@)),
                0 <= bd@,
                0 <= nh as int,
        ;
    }
    let t1 = mat_sum(&m1, &m4, Ghost(bigb), Ghost(bigb));
    let t2 = mat_diff(&t1, &m5, Ghost(bigb + bigb), Ghost(bigb));
    let c11 = mat_sum(&t2, &m7, Ghost(bigb + bigb + bigb), Ghost(bigb));
    let c12 = mat_sum(&m3, &m5, Ghost(bigb), Ghost(bigb));
    let c21 = mat_sum(&m2x, &m4, Ghost(bigb), Ghost(bigb));
    let u1 = mat_diff(&m1, &m2x, Ghost(bigb), Ghost(bigb));
    let u2 = mat_sum(&u1, &m3, Ghost(bigb + bigb), Ghost(bigb));
    let c22 = mat_sum(&u2, &m6, Ghost(bigb + bigb + bigb), Ghost(bigb));
    let cc = Matrix::combine_quadrants(&c11, &c12, &c21, &c22);
    proof {
        lemma_strassen_combine(a11v, a12v, a21v, a22v, b11v, b12v, b21v, b22v);
        lemma_mul_block_split(ap@, bp@, mh as int, nh as int, ph as int);
    }
    cc
}

/// One recursion step: below the threshold delegate to the triple loop, else
/// pad any odd dimension with zeros, split into conformal quadrants,
/// materialize the seven sum/difference operand pairs, multiply them
/// recursively, combine by Strassen's formulas, and trim the padding off.
/// Returns exactly the product.
#[verifier::rlimit(100)]
#[verifier::spinoff_prover]
pub fn strassen_recursive(a: &Matrix, b: &Matrix, threshold: usize, parallel: bool) -> (c: Matrix)
    requires
        a.wf(),
        b.wf(),
        a.cols == b.rows,
        threshold >= 1,
        strassen_fits(a@, b@),
        strassen_alloc_ok(*a, *b),
    ensures
        c.wf(),
        c.rows == a.rows,
        c.cols == b.cols,
        c@ == view_mul(a@, b@),
    decreases a.rows + a.cols + b.cols, 0int,
{
    let m = a.rows;
    let n = a.cols;
    let p = b.cols;
    let ghost nm = max3(m as int, n as int, p as int);
    let ghost bd = choose|bd: int|
        0 <= bd && a@.bounded(bd) && b@.bounded(bd) && strassen_room(nm, bd);
    if m <= threshold || n <= threshold || p <= threshold {
        proof {
            assert((n as int) * (bd * bd) <= i64::MAX) by (nonlinear_arith)
                requires
                    0 <= bd,
                    0 <= n as int <= nm,
                    4 * (nm * nm * nm * nm) * (bd * bd) <= i64::MAX,
            ;
            assert(mul_fits(a@, b@)) by {
                assert(0 <= bd && a@.bounded(bd) && b@.bounded(bd) && (a@.cols as int) * (bd * bd)
                    <= i64::MAX);
            }
            lemma_mul_le_both(m as int, nm + 1, p as int, nm + 1);
        }
        return iterative_mul(a, b);
    }
    proof {
        assert(nm + 1 <= (nm + 1) * (nm + 1)) by (nonlinear_arith)
            requires
                nm >= 2,
        ;
    }
    let m2 = m + m % 2;
    let n2 = n + n % 2;
    let p2 = p + p % 2;
    proof {
        assert(m2 % 2 == 0 && n2 % 2 == 0 && p2 % 2 == 0);
        lemma_mul_le_both(m2 as int, nm + 1, n2 as int, nm + 1);
        lemma_mul_le_both(n2 as int, nm + 1, p2 as int, nm + 1);
        lemma_mul_le_both(m2 as int, nm + 1, p2 as int, nm + 1);
    }
    let ap = pad(a, m2, n2);
    let bp = pad(b, n2, p2);
    proof {
        lemma_pad_bounded(a@, m2 as nat, n2 as nat, bd);
        lemma_pad_bounded(b@, n2 as nat, p2 as nat, bd);
        assert(4 * ((n2 as int / 2) * ((2 * bd) * (2 * bd))) <= i64::MAX) by (nonlinear_arith)
            requires
                0 <= bd,
                2 * (n2 as int / 2) <= nm + 1,
                nm >= 2,
                4 * (nm * nm * nm * nm) * (bd * bd) <= i64::MAX,
        ;
    }
    let (m1, m2x, m3, m4, m5, m6, m7) = strassen_products(
        &ap,
        &bp,
        threshold,
        parallel,
        Ghost(bd),
        Ghost(nm),
    );
    let cc = strassen_finish(&ap, &bp, m1, m2x, m3, m4, m5, m6, m7, Ghost(bd));
    let c = cc.submatrix(0, m, 0, p);
    proof {
        lemma_mul_pad(a@, b@, m2 as nat, n2 as nat, p2 as nat);
    }
    c
}

/// Strassen multiplication with an explicit worker count: rejects a dimension
/// mismatch with all four dimensions; rejects parallel mode when fewer than
/// two workers are available; otherwise returns exactly the product. The
/// result does not depend on the mode.
pub fn strassen_with_workers(
    a: &Matrix,
    b: &Matrix,
    threshold: usize,
    parallel: bool,
    workers: usize,
) -> (r: Result<Matrix, MatmulError>)
    requires
        a.wf(),
        b.wf(),
        threshold >= 1,
        a.cols == b.rows ==> strassen_fits(a@, b@) && strassen_alloc_ok(*a, *b),
    ensures
        match r {
            Ok(c) => {
                &&& a.cols == b.rows
                &&& !(parallel && workers < 2)
                &&& c.wf()
                &&& c.rows == a.rows
                &&& c.cols == b.cols
                &&& c@ == view_mul(a@, b@)
            },
            Err(e) => match e {
                MatmulError::DimensionMismatch { a_rows, a_cols, b_rows, b_cols } => {
                    &&& a.cols != b.rows
                    &&& a_rows == a.rows
                    &&& a_cols == a.cols
                    &&& b_rows == b.rows
                    &&& b_cols == b.cols
                },
                MatmulError::Configuration { workers: w } => {
                    &&& a.cols == b.rows
                    &&& parallel
                    &&& workers < 2
                    &&& w == workers
                },
            },
        },
{
    if a.cols != b.rows {
        return Err(
            MatmulError::DimensionMismatch {
                a_rows: a.rows,
                a_cols: a.cols,
                b_rows: b.rows,
                b_cols: b.cols,
            },
        );
    }
    if parallel && workers < 2 {
        return Err(MatmulError::Configuration { workers });
    }
    Ok(strassen_recursive(a, b, threshold, parallel))
}

/// Strassen multiplication. In parallel mode the thread pool is consulted
/// first: with fewer than two workers the request is refused as a
/// configuration error before any computation. Sequential mode always returns
/// exactly the product for conformal operands.
pub fn strassen_matmul(a: &Matrix, b: &Matrix, threshold: usize, parallel: bool) -> (r: Result<
    Matrix,
    MatmulError,
>)
    requires
        a.wf(),
        b.wf(),
        threshold >= 1,
        a.cols == b.rows ==> strassen_fits(a@, b@) && strassen_alloc_ok(*a, *b),
    ensures
        match r {
            Ok(c) => {
                &&& a.cols == b.rows
                &&& c.wf()
                &&& c.rows == a.rows
                &&& c.cols == b.cols
                &&& c@ == view_mul(a@, b@)
            },
            Err(e) => match e {
                MatmulError::DimensionMismatch { a_rows, a_cols, b_rows, b_cols } => {
                    &&& a.cols != b.rows
                    &&& a_rows == a.rows
                    &&& a_cols == a.cols
                    &&& b_rows == b.rows
                    &&& b_cols == b.cols
                },
                MatmulError::Configuration { workers } => {
                    &&& a.cols == b.rows
                    &&& parallel
                    &&& workers < 2
                },
            },
        },
        !parallel && a.cols == b.rows ==> r is Ok,
{
    let w = worker_count();
    strassen_with_workers(a, b, threshold, parallel, w)
}

} // verus!
