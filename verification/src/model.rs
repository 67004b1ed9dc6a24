//! Operations on the mathematical model of a matrix, and the lemmas that
//! relate them: sums over a segment of a row-column product, elementwise sum
//! and difference, rectangular extraction, quadrant recombination, and
//! zero-padding. The multiplication engines state their contracts over these
//! and prove them with the lemmas here.

use vstd::prelude::*;
use crate::matrix::MatrixView;

verus! {

/// Elementwise sum; defined for operands of the same shape.
pub open spec fn view_add(a: MatrixView, b: MatrixView) -> MatrixView {
    MatrixView {
        rows: a.rows,
        cols: a.cols,
        elems: Seq::new(a.cols, |j: int| Seq::new(a.rows, |i: int| a.entry(i, j) + b.entry(i, j))),
    }
}

/// Elementwise difference; defined for operands of the same shape.
pub open spec fn view_sub(a: MatrixView, b: MatrixView) -> MatrixView {
    MatrixView {
        rows: a.rows,
        cols: a.cols,
        elems: Seq::new(a.cols, |j: int| Seq::new(a.rows, |i: int| a.entry(i, j) - b.entry(i, j))),
    }
}

/// The rectangular region `[r0, r1) x [c0, c1)` of `m`.
pub open spec fn view_submatrix(m: MatrixView, r0: int, r1: int, c0: int, c1: int) -> MatrixView {
    MatrixView {
        rows: (r1 - r0) as nat,
        cols: (c1 - c0) as nat,
        elems: Seq::new(
            (c1 - c0) as nat,
            |j: int| Seq::new((r1 - r0) as nat, |i: int| m.entry(r0 + i, c0 + j)),
        ),
    }
}

/// Four quadrants assembled into one matrix, `c11` in the upper left.
pub open spec fn view_combine(
    c11: MatrixView,
    c12: MatrixView,
    c21: MatrixView,
    c22: MatrixView,
) -> MatrixView {
    MatrixView {
        rows: c11.rows + c21.rows,
        cols: c11.cols + c12.cols,
        elems: Seq::new(
            c11.cols + c12.cols,
            |j: int|
                Seq::new(
                    c11.rows + c21.rows,
                    |i: int|
                        if i < c11.rows {
                            if j < c11.cols {
                                c11.entry(i, j)
                            } else {
                                c12.entry(i, j - c11.cols)
                            }
                        } else {
                            if j < c11.cols {
                                c21.entry(i - c11.rows, j)
                            } else {
                                c22.entry(i - c11.rows, j - c11.cols)
                            }
                        },
                ),
        ),
    }
}

/// `m` extended with zeros on the bottom and the right to the given shape.
pub open spec fn view_pad(m: MatrixView, rows: nat, cols: nat) -> MatrixView {
    MatrixView {
        rows,
        cols,
        elems: Seq::new(
            cols,
            |j: int|
                Seq::new(
                    rows,
                    |i: int| if i < m.rows && j < m.cols { m.entry(i, j) } else { 0 },
                ),
        ),
    }
}

/// The sum of `a[i, t] * b[t, j]` over `lo <= t < hi`.
pub open spec fn dot_seg(a: MatrixView, b: MatrixView, i: int, j: int, lo: int, hi: int) -> int
    decreases hi - lo,
{
    if hi <= lo {
        0
    } else {
        dot_seg(a, b, i, j, lo, hi - 1) + a.entry(i, hi - 1) * b.entry(hi - 1, j)
    }
}

/// The matrix product: entry `(i, j)` is the sum of `a[i, t] * b[t, j]` over
/// the whole shared dimension.
pub open spec fn view_mul(a: MatrixView, b: MatrixView) -> MatrixView {
    MatrixView {
        rows: a.rows,
        cols: b.cols,
        elems: Seq::new(
            b.cols,
            |j: int| Seq::new(a.rows, |i: int| dot_seg(a, b, i, j, 0, a.cols as int)),
        ),
    }
}

/// Two well-shaped views of the same shape with equal entries are equal.
pub proof fn lemma_view_ext(x: MatrixView, y: MatrixView)
    requires
        x.wf(),
        y.wf(),
        x.rows == y.rows,
        x.cols == y.cols,
        forall|i: int, j: int|
            0 <= i < x.rows && 0 <= j < x.cols ==> x.entry(i, j) == #[trigger] y.entry(i, j),
    ensures
        x == y,
{
    assert forall|j: int| 0 <= j < x.cols implies x.elems[j] =~= y.elems[j] by {
        assert forall|i: int| 0 <= i < x.rows implies x.elems[j][i] == y.elems[j][i] by {
            assert(y.entry(i, j) == x.entry(i, j));
        }
    }
    assert(x.elems =~~= y.elems);
}

/// A product segment splits at any midpoint.
pub proof fn lemma_dot_seg_split(
    a: MatrixView,
    b: MatrixView,
    i: int,
    j: int,
    lo: int,
    mid: int,
    hi: int,
)
    requires
        lo <= mid <= hi,
    ensures
        dot_seg(a, b, i, j, lo, hi) == dot_seg(a, b, i, j, lo, mid) + dot_seg(a, b, i, j, mid, hi),
    decreases hi - mid,
{
    if mid < hi {
        lemma_dot_seg_split(a, b, i, j, lo, mid, hi - 1);
    }
}

/// A product segment only depends on the entries it reads: operands whose
/// entries agree with a window of `a` and `b` give the sum over that window.
pub proof fn lemma_dot_seg_congruent(
    x: MatrixView,
    y: MatrixView,
    a: MatrixView,
    b: MatrixView,
    xi: int,
    yj: int,
    ai: int,
    bj: int,
    off: int,
    k: int,
)
    requires
        0 <= k,
        forall|t: int| 0 <= t < k ==> #[trigger] x.entry(xi, t) == a.entry(ai, off + t),
        forall|t: int| 0 <= t < k ==> #[trigger] y.entry(t, yj) == b.entry(off + t, bj),
    ensures
        dot_seg(x, y, xi, yj, 0, k) == dot_seg(a, b, ai, bj, off, off + k),
    decreases k,
{
    if k > 0 {
        lemma_dot_seg_congruent(x, y, a, b, xi, yj, ai, bj, off, k - 1);
    }
}

/// A product segment over a window where the left operand is zero is zero.
pub proof fn lemma_dot_seg_zero_left(a: MatrixView, b: MatrixView, i: int, j: int, lo: int, hi: int)
    requires
        forall|t: int| lo <= t < hi ==> #[trigger] a.entry(i, t) == 0,
    ensures
        dot_seg(a, b, i, j, lo, hi) == 0,
    decreases hi - lo,
{
    if lo < hi {
        lemma_dot_seg_zero_left(a, b, i, j, lo, hi - 1);
    }
}

/// A product segment of entries bounded by `ba` and `bb` is bounded by the
/// window length times `ba * bb`.
pub proof fn lemma_dot_seg_bound(
    a: MatrixView,
    b: MatrixView,
    i: int,
    j: int,
    lo: int,
    hi: int,
    ba: int,
    bb: int,
)
    requires
        lo <= hi,
        0 <= ba,
        0 <= bb,
        forall|t: int| lo <= t < hi ==> -ba <= #[trigger] a.entry(i, t) <= ba,
        forall|t: int| lo <= t < hi ==> -bb <= #[trigger] b.entry(t, j) <= bb,
    ensures
        -((hi - lo) * (ba * bb)) <= dot_seg(a, b, i, j, lo, hi) <= (hi - lo) * (ba * bb),
    decreases hi - lo,
{
    if lo < hi {
        lemma_dot_seg_bound(a, b, i, j, lo, hi - 1, ba, bb);
        let x = a.entry(i, hi - 1);
        let y = b.entry(hi - 1, j);
        assert(-(ba * bb) <= x * y <= ba * bb) by (nonlinear_arith)
            requires
                -ba <= x <= ba,
                -bb <= y <= bb,
                0 <= ba,
                0 <= bb,
        ;
        assert((hi - lo) * (ba * bb) == (hi - 1 - lo) * (ba * bb) + ba * bb) by (nonlinear_arith);
    }
}

/// A product segment is additive in its left operand.
pub proof fn lemma_dot_seg_add_left(
    x1: MatrixView,
    x2: MatrixView,
    y: MatrixView,
    i: int,
    j: int,
    k: int,
)
    requires
        x1.rows == x2.rows,
        x1.cols == x2.cols,
        0 <= i < x1.rows,
        0 <= k <= x1.cols,
    ensures
        dot_seg(view_add(x1, x2), y, i, j, 0, k) == dot_seg(x1, y, i, j, 0, k) + dot_seg(
            x2,
            y,
            i,
            j,
            0,
            k,
        ),
    decreases k,
{
    if k > 0 {
        lemma_dot_seg_add_left(x1, x2, y, i, j, k - 1);
        let a1 = x1.entry(i, k - 1);
        let a2 = x2.entry(i, k - 1);
        let b = y.entry(k - 1, j);
        assert(view_add(x1, x2).entry(i, k - 1) == a1 + a2);
        assert((a1 + a2) * b == a1 * b + a2 * b) by (nonlinear_arith);
    }
}

/// A product segment is subtractive in its left operand.
pub proof fn lemma_dot_seg_sub_left(
    x1: MatrixView,
    x2: MatrixView,
    y: MatrixView,
    i: int,
    j: int,
    k: int,
)
    requires
        x1.rows == x2.rows,
        x1.cols == x2.cols,
        0 <= i < x1.rows,
        0 <= k <= x1.cols,
    ensures
        dot_seg(view_sub(x1, x2), y, i, j, 0, k) == dot_seg(x1, y, i, j, 0, k) - dot_seg(
            x2,
            y,
            i,
            j,
            0,
            k,
        ),
    decreases k,
{
    if k > 0 {
        lemma_dot_seg_sub_left(x1, x2, y, i, j, k - 1);
        let a1 = x1.entry(i, k - 1);
        let a2 = x2.entry(i, k - 1);
        let b = y.entry(k - 1, j);
        assert(view_sub(x1, x2).entry(i, k - 1) == a1 - a2);
        assert((a1 - a2) * b == a1 * b - a2 * b) by (nonlinear_arith);
    }
}

/// A product segment is additive in its right operand.
pub proof fn lemma_dot_seg_add_right(
    x: MatrixView,
    y1: MatrixView,
    y2: MatrixView,
    i: int,
    j: int,
    k: int,
)
    requires
        y1.rows == y2.rows,
        y1.cols == y2.cols,
        0 <= j < y1.cols,
        0 <= k <= y1.rows,
    ensures
        dot_seg(x, view_add(y1, y2), i, j, 0, k) == dot_seg(x, y1, i, j, 0, k) + dot_seg(
            x,
            y2,
            i,
            j,
            0,
            k,
        ),
    decreases k,
{
    if k > 0 {
        lemma_dot_seg_add_right(x, y1, y2, i, j, k - 1);
        let a = x.entry(i, k - 1);
        let b1 = y1.entry(k - 1, j);
        let b2 = y2.entry(k - 1, j);
        assert(view_add(y1, y2).entry(k - 1, j) == b1 + b2);
        assert(a * (b1 + b2) == a * b1 + a * b2) by (nonlinear_arith);
    }
}

/// A product segment is subtractive in its right operand.
pub proof fn lemma_dot_seg_sub_right(
    x: MatrixView,
    y1: MatrixView,
    y2: MatrixView,
    i: int,
    j: int,
    k: int,
)
    requires
        y1.rows == y2.rows,
        y1.cols == y2.cols,
        0 <= j < y1.cols,
        0 <= k <= y1.rows,
    ensures
        dot_seg(x, view_sub(y1, y2), i, j, 0, k) == dot_seg(x, y1, i, j, 0, k) - dot_seg(
            x,
            y2,
            i,
            j,
            0,
            k,
        ),
    decreases k,
{
    if k > 0 {
        lemma_dot_seg_sub_right(x, y1, y2, i, j, k - 1);
        let a = x.entry(i, k - 1);
        let b1 = y1.entry(k - 1, j);
        let b2 = y2.entry(k - 1, j);
        assert(view_sub(y1, y2).entry(k - 1, j) == b1 - b2);
        assert(a * (b1 - b2) == a * b1 - a * b2) by (nonlinear_arith);
    }
}

/// Block decomposition of the matrix product: splitting both operands into
/// quadrants at a shared point on the inner dimension, multiplying the blocks
/// pairwise, summing, and recombining gives exactly the product of the whole
/// operands.
pub proof fn lemma_mul_block_split(a: MatrixView, b: MatrixView, mh: int, nh: int, ph: int)
    requires
        a.wf(),
        b.wf(),
        a.cols == b.rows,
        0 <= mh <= a.rows,
        0 <= nh <= a.cols,
        0 <= ph <= b.cols,
    ensures
        ({
            let a11 = view_submatrix(a, 0, mh, 0, nh);
            let a12 = view_submatrix(a, 0, mh, nh, a.cols as int);
            let a21 = view_submatrix(a, mh, a.rows as int, 0, nh);
            let a22 = view_submatrix(a, mh, a.rows as int, nh, a.cols as int);
            let b11 = view_submatrix(b, 0, nh, 0, ph);
            let b12 = view_submatrix(b, 0, nh, ph, b.cols as int);
            let b21 = view_submatrix(b, nh, b.rows as int, 0, ph);
            let b22 = view_submatrix(b, nh, b.rows as int, ph, b.cols as int);
            view_mul(a, b) == view_combine(
                view_add(view_mul(a11, b11), view_mul(a12, b21)),
                view_add(view_mul(a11, b12), view_mul(a12, b22)),
                view_add(view_mul(a21, b11), view_mul(a22, b21)),
                view_add(view_mul(a21, b12), view_mul(a22, b22)),
            )
        }),
{
    let n = a.cols as int;
    let a11 = view_submatrix(a, 0, mh, 0, nh);
    let a12 = view_submatrix(a, 0, mh, nh, n);
    let a21 = view_submatrix(a, mh, a.rows as int, 0, nh);
    let a22 = view_submatrix(a, mh, a.rows as int, nh, n);
    let b11 = view_submatrix(b, 0, nh, 0, ph);
    let b12 = view_submatrix(b, 0, nh, ph, b.cols as int);
    let b21 = view_submatrix(b, nh, n, 0, ph);
    let b22 = view_submatrix(b, nh, n, ph, b.cols as int);
    let c = view_combine(
        view_add(view_mul(a11, b11), view_mul(a12, b21)),
        view_add(view_mul(a11, b12), view_mul(a12, b22)),
        view_add(view_mul(a21, b11), view_mul(a22, b21)),
        view_add(view_mul(a21, b12), view_mul(a22, b22)),
    );
    assert forall|i: int, j: int|
        0 <= i < a.rows && 0 <= j < b.cols implies view_mul(a, b).entry(i, j) == #[trigger] c.entry(
        i,
        j,
    ) by {
        lemma_dot_seg_split(a, b, i, j, 0, nh, n);
        if i < mh {
            if j < ph {
                lemma_dot_seg_congruent(a11, b11, a, b, i, j, i, j, 0, nh);
                lemma_dot_seg_congruent(a12, b21, a, b, i, j, i, j, nh, n - nh);
            } else {
                lemma_dot_seg_congruent(a11, b12, a, b, i, j - ph, i, j, 0, nh);
                lemma_dot_seg_congruent(a12, b22, a, b, i, j - ph, i, j, nh, n - nh);
            }
        } else {
            if j < ph {
                lemma_dot_seg_congruent(a21, b11, a, b, i - mh, j, i, j, 0, nh);
                lemma_dot_seg_congruent(a22, b21, a, b, i - mh, j, i, j, nh, n - nh);
            } else {
                lemma_dot_seg_congruent(a21, b12, a, b, i - mh, j - ph, i, j, 0, nh);
                lemma_dot_seg_congruent(a22, b22, a, b, i - mh, j - ph, i, j, nh, n - nh);
            }
        }
    }
    lemma_view_ext(view_mul(a, b), c);
}

/// Padding both operands with zeros on the inner dimension (and on the outer
/// ones) does not change the product on the original region: trimming the
/// product of the padded operands back to the original shape gives the product
/// of the originals.
pub proof fn lemma_mul_pad(a: MatrixView, b: MatrixView, r: nat, k: nat, c: nat)
    requires
        a.wf(),
        b.wf(),
        a.cols == b.rows,
        a.rows <= r,
        a.cols <= k,
        b.cols <= c,
    ensures
        view_submatrix(
            view_mul(view_pad(a, r, k), view_pad(b, k, c)),
            0,
            a.rows as int,
            0,
            b.cols as int,
        ) == view_mul(a, b),
{
    let pa = view_pad(a, r, k);
    let pb = view_pad(b, k, c);
    let t = view_submatrix(view_mul(pa, pb), 0, a.rows as int, 0, b.cols as int);
    let n = a.cols as int;
    assert forall|i: int, j: int|
        0 <= i < a.rows && 0 <= j < b.cols implies t.entry(i, j) == #[trigger] view_mul(
        a,
        b,
    ).entry(i, j) by {
        lemma_dot_seg_split(pa, pb, i, j, 0, n, k as int);
        lemma_dot_seg_zero_left(pa, pb, i, j, n, k as int);
        lemma_dot_seg_congruent(a, b, pa, pb, i, j, i, j, 0, n);
    }
    lemma_view_ext(t, view_mul(a, b));
}

/// The four linear combinations of Strassen's seven products equal the four
/// quadrant sums of the ordinary eight-product decomposition, for conformal
/// quadrants.
proof fn lemma_strassen_entry(
    a11: MatrixView,
    a12: MatrixView,
    a21: MatrixView,
    a22: MatrixView,
    b11: MatrixView,
    b12: MatrixView,
    b21: MatrixView,
    b22: MatrixView,
    i: int,
    j: int,
)
    requires
        a12.rows == a11.rows,
        a21.rows == a11.rows,
        a22.rows == a11.rows,
        a12.cols == a11.cols,
        a21.cols == a11.cols,
        a22.cols == a11.cols,
        b12.rows == b11.rows,
        b21.rows == b11.rows,
        b22.rows == b11.rows,
        b12.cols == b11.cols,
        b21.cols == b11.cols,
        b22.cols == b11.cols,
        b11.rows == a11.cols,
        0 <= i < a11.rows,
        0 <= j < b11.cols,
    ensures
        ({
            let m1 = view_mul(view_add(a11, a22), view_add(b11, b22));
            let m2 = view_mul(view_add(a21, a22), b11);
            let m3 = view_mul(a11, view_sub(b12, b22));
            let m4 = view_mul(a22, view_sub(b21, b11));
            let m5 = view_mul(view_add(a11, a12), b22);
            let m6 = view_mul(view_sub(a21, a11), view_add(b11, b12));
            let m7 = view_mul(view_sub(a12, a22), view_add(b21, b22));
            &&& m1.entry(i, j) + m4.entry(i, j) - m5.entry(i, j) + m7.entry(i, j) == view_mul(
                a11,
                b11,
            ).entry(i, j) + view_mul(a12, b21).entry(i, j)
            &&& m3.entry(i, j) + m5.entry(i, j) == view_mul(a11, b12).entry(i, j) + view_mul(
                a12,
                b22,
            ).entry(i, j)
            &&& m2.entry(i, j) + m4.entry(i, j) == view_mul(a21, b11).entry(i, j) + view_mul(
                a22,
                b21,
            ).entry(i, j)
            &&& m1.entry(i, j) - m2.entry(i, j) + m3.entry(i, j) + m6.entry(i, j) == view_mul(
                a21,
                b12,
            ).entry(i, j) + view_mul(a22, b22).entry(i, j)
        }),
{
    let nq = a11.cols as int;
    lemma_dot_seg_add_left(a11, a22, view_add(b11, b22), i, j, nq);
    lemma_dot_seg_add_right(a11, b11, b22, i, j, nq);
    lemma_dot_seg_add_right(a22, b11, b22, i, j, nq);
    lemma_dot_seg_add_left(a21, a22, b11, i, j, nq);
    lemma_dot_seg_sub_right(a11, b12, b22, i, j, nq);
    lemma_dot_seg_sub_right(a22, b21, b11, i, j, nq);
    lemma_dot_seg_add_left(a11, a12, b22, i, j, nq);
    lemma_dot_seg_sub_left(a21, a11, view_add(b11, b12), i, j, nq);
    lemma_dot_seg_add_right(a21, b11, b12, i, j, nq);
    lemma_dot_seg_add_right(a11, b11, b12, i, j, nq);
    lemma_dot_seg_sub_left(a12, a22, view_add(b21, b22), i, j, nq);
    lemma_dot_seg_add_right(a12, b21, b22, i, j, nq);
    lemma_dot_seg_add_right(a22, b21, b22, i, j, nq);
}

/// Strassen's recombination: for conformal quadrants, the four linear
/// combinations of the seven products are exactly the four quadrants of the
/// block product.
pub proof fn lemma_strassen_combine(
    a11: MatrixView,
    a12: MatrixView,
    a21: MatrixView,
    a22: MatrixView,
    b11: MatrixView,
    b12: MatrixView,
    b21: MatrixView,
    b22: MatrixView,
)
    requires
        a12.rows == a11.rows,
        a21.rows == a11.rows,
        a22.rows == a11.rows,
        a12.cols == a11.cols,
        a21.cols == a11.cols,
        a22.cols == a11.cols,
        b12.rows == b11.rows,
        b21.rows == b11.rows,
        b22.rows == b11.rows,
        b12.cols == b11.cols,
        b21.cols == b11.cols,
        b22.cols == b11.cols,
        b11.rows == a11.cols,
    ensures
        ({
            let m1 = view_mul(view_add(a11, a22), view_add(b11, b22));
            let m2 = view_mul(view_add(a21, a22), b11);
            let m3 = view_mul(a11, view_sub(b12, b22));
            let m4 = view_mul(a22, view_sub(b21, b11));
            let m5 = view_mul(view_add(a11, a12), b22);
            let m6 = view_mul(view_sub(a21, a11), view_add(b11, b12));
            let m7 = view_mul(view_sub(a12, a22), view_add(b21, b22));
            &&& view_add(view_sub(view_add(m1, m4), m5), m7) == view_add(
                view_mul(a11, b11),
                view_mul(a12, b21),
            )
            &&& view_add(m3, m5) == view_add(view_mul(a11, b12), view_mul(a12, b22))
            &&& view_add(m2, m4) == view_add(view_mul(a21, b11), view_mul(a22, b21))
            &&& view_add(view_add(view_sub(m1, m2), m3), m6) == view_add(
                view_mul(a21, b12),
                view_mul(a22, b22),
            )
        }),
{
    let m1 = view_mul(view_add(a11, a22), view_add(b11, b22));
    let m2 = view_mul(view_add(a21, a22), b11);
    let m3 = view_mul(a11, view_sub(b12, b22));
    let m4 = view_mul(a22, view_sub(b21, b11));
    let m5 = view_mul(view_add(a11, a12), b22);
    let m6 = view_mul(view_sub(a21, a11), view_add(b11, b12));
    let m7 = view_mul(view_sub(a12, a22), view_add(b21, b22));
    let c11 = view_add(view_sub(view_add(m1, m4), m5), m7);
    let c12 = view_add(m3, m5);
    let c21 = view_add(m2, m4);
    let c22 = view_add(view_add(view_sub(m1, m2), m3), m6);
    let r11 = view_add(view_mul(a11, b11), view_mul(a12, b21));
    let r12 = view_add(view_mul(a11, b12), view_mul(a12, b22));
    let r21 = view_add(view_mul(a21, b11), view_mul(a22, b21));
    let r22 = view_add(view_mul(a21, b12), view_mul(a22, b22));
    assert forall|i: int, j: int|
        0 <= i < a11.rows && 0 <= j < b11.cols implies c11.entry(i, j) == #[trigger] r11.entry(
        i,
        j,
    ) by {
        lemma_strassen_entry(a11, a12, a21, a22, b11, b12, b21, b22, i, j);
    }
    lemma_view_ext(c11, r11);
    assert forall|i: int, j: int|
        0 <= i < a11.rows && 0 <= j < b11.cols implies c12.entry(i, j) == #[trigger] r12.entry(
        i,
        j,
    ) by {
        lemma_strassen_entry(a11, a12, a21, a22, b11, b12, b21, b22, i, j);
    }
    lemma_view_ext(c12, r12);
    assert forall|i: int, j: int|
        0 <= i < a11.rows && 0 <= j < b11.cols implies c21.entry(i, j) == #[trigger] r21.entry(
        i,
        j,
    ) by {
        lemma_strassen_entry(a11, a12, a21, a22, b11, b12, b21, b22, i, j);
    }
    lemma_view_ext(c21, r21);
    assert forall|i: int, j: int|
        0 <= i < a11.rows && 0 <= j < b11.cols implies c22.entry(i, j) == #[trigger] r22.entry(
        i,
        j,
    ) by {
        lemma_strassen_entry(a11, a12, a21, a22, b11, b12, b21, b22, i, j);
    }
    lemma_view_ext(c22, r22);
}

/// Splitting a matrix into four quadrants at any valid point and recombining
/// them reconstructs the matrix exactly, also when a dimension is odd and the
/// lower or right part is the larger.
pub proof fn lemma_split_combine_identity(m: MatrixView, rh: int, ch: int)
    requires
        m.wf(),
        0 <= rh <= m.rows,
        0 <= ch <= m.cols,
    ensures
        view_combine(
            view_submatrix(m, 0, rh, 0, ch),
            view_submatrix(m, 0, rh, ch, m.cols as int),
            view_submatrix(m, rh, m.rows as int, 0, ch),
            view_submatrix(m, rh, m.rows as int, ch, m.cols as int),
        ) == m,
{
    let c = view_combine(
        view_submatrix(m, 0, rh, 0, ch),
        view_submatrix(m, 0, rh, ch, m.cols as int),
        view_submatrix(m, rh, m.rows as int, 0, ch),
        view_submatrix(m, rh, m.rows as int, ch, m.cols as int),
    );
    lemma_view_ext(c, m);
}

/// Adding a matrix and then subtracting it again is the identity.
pub proof fn lemma_add_sub_identity(x: MatrixView, y: MatrixView)
    requires
        x.wf(),
        y.wf(),
        x.rows == y.rows,
        x.cols == y.cols,
    ensures
        view_sub(view_add(x, y), y) == x,
{
    lemma_view_ext(view_sub(view_add(x, y), y), x);
}

/// A rectangular region of a bounded matrix is bounded by the same bound.
pub proof fn lemma_submatrix_bounded(
    m: MatrixView,
    r0: int,
    r1: int,
    c0: int,
    c1: int,
    bd: int,
)
    requires
        0 <= r0 <= r1 <= m.rows,
        0 <= c0 <= c1 <= m.cols,
        m.bounded(bd),
    ensures
        view_submatrix(m, r0, r1, c0, c1).bounded(bd),
{
    let s = view_submatrix(m, r0, r1, c0, c1);
    assert forall|i: int, j: int| 0 <= i < s.rows && 0 <= j < s.cols implies -bd
        <= #[trigger] s.entry(i, j) <= bd by {
        assert(s.entry(i, j) == m.entry(r0 + i, c0 + j));
    }
}

/// The product of matrices bounded by `bd` is bounded by the inner dimension
/// times `bd * bd`.
pub proof fn lemma_mul_bounded(a: MatrixView, b: MatrixView, bd: int)
    requires
        a.wf(),
        b.wf(),
        a.cols == b.rows,
        0 <= bd,
        a.bounded(bd),
        b.bounded(bd),
    ensures
        view_mul(a, b).bounded((a.cols as int) * (bd * bd)),
{
    let n = a.cols as int;
    let c = view_mul(a, b);
    assert forall|i: int, j: int| 0 <= i < c.rows && 0 <= j < c.cols implies -(n * (bd * bd))
        <= #[trigger] c.entry(i, j) <= n * (bd * bd) by {
        lemma_dot_seg_bound(a, b, i, j, 0, n, bd, bd);
    }
}

/// A bound on every element stays a bound when it is relaxed.
pub proof fn lemma_bounded_mono(x: MatrixView, b1: int, b2: int)
    requires
        x.bounded(b1),
        b1 <= b2,
    ensures
        x.bounded(b2),
{
}

/// The elementwise sum of bounded matrices is bounded by the sum of the bounds.
pub proof fn lemma_add_bounded(x: MatrixView, y: MatrixView, bx: int, by: int)
    requires
        x.rows == y.rows,
        x.cols == y.cols,
        x.bounded(bx),
        y.bounded(by),
    ensures
        view_add(x, y).bounded(bx + by),
{
    let s = view_add(x, y);
    assert forall|i: int, j: int| 0 <= i < s.rows && 0 <= j < s.cols implies -(bx + by)
        <= #[trigger] s.entry(i, j) <= bx + by by {
        assert(s.entry(i, j) == x.entry(i, j) + y.entry(i, j));
    }
}

/// The elementwise difference of bounded matrices is bounded by the sum of the
/// bounds.
pub proof fn lemma_sub_bounded(x: MatrixView, y: MatrixView, bx: int, by: int)
    requires
        x.rows == y.rows,
        x.cols == y.cols,
        x.bounded(bx),
        y.bounded(by),
    ensures
        view_sub(x, y).bounded(bx + by),
{
    let s = view_sub(x, y);
    assert forall|i: int, j: int| 0 <= i < s.rows && 0 <= j < s.cols implies -(bx + by)
        <= #[trigger] s.entry(i, j) <= bx + by by {
        assert(s.entry(i, j) == x.entry(i, j) - y.entry(i, j));
    }
}

/// Zero-padding keeps any nonnegative element bound.
pub proof fn lemma_pad_bounded(m: MatrixView, r: nat, c: nat, bd: int)
    requires
        m.bounded(bd),
        0 <= bd,
    ensures
        view_pad(m, r, c).bounded(bd),
{
    let p = view_pad(m, r, c);
    assert forall|i: int, j: int| 0 <= i < p.rows && 0 <= j < p.cols implies -bd
        <= #[trigger] p.entry(i, j) <= bd by {
        if i < m.rows && j < m.cols {
            assert(p.entry(i, j) == m.entry(i, j));
        } else {
            assert(p.entry(i, j) == 0);
        }
    }
}

/// Elementwise sums and differences of matrices bounded by `bx` and `by` fit
/// in an `i64` whenever `bx + by` does.
pub proof fn lemma_bounded_pair_fits(x: MatrixView, y: MatrixView, bx: int, by: int)
    requires
        x.rows == y.rows,
        x.cols == y.cols,
        0 <= bx,
        0 <= by,
        x.bounded(bx),
        y.bounded(by),
        bx + by <= i64::MAX,
    ensures
        forall|i: int, j: int|
            0 <= i < x.rows && 0 <= j < x.cols ==> i64::MIN <= #[trigger] x.entry(i, j) + y.entry(
                i,
                j,
            ) <= i64::MAX,
        forall|i: int, j: int|
            0 <= i < x.rows && 0 <= j < x.cols ==> i64::MIN <= #[trigger] x.entry(i, j) - y.entry(
                i,
                j,
            ) <= i64::MAX,
{
}

/// Multiplying a smaller factor by a nonnegative one gives a smaller product.
pub proof fn lemma_mul_le(a: int, b: int, c: int)
    by (nonlinear_arith)
    requires
        a <= b,
        0 <= c,
    ensures
        a * c <= b * c,
{
}

/// Shrinking both nonnegative factors shrinks the product.
pub proof fn lemma_mul_le_both(a1: int, a2: int, b1: int, b2: int)
    by (nonlinear_arith)
    requires
        0 <= a1 <= a2,
        0 <= b1 <= b2,
    ensures
        a1 * b1 <= a2 * b2,
{
}

} // verus!
