//! The dense matrix type and its mathematical model.
//!
//! A `Matrix` stores its elements in one contiguous buffer in column-major
//! order: element `(i, j)` lives at linear offset `j * rows + i`. Every
//! operation here preserves that storage invariant. The mathematical model of
//! a matrix is a `MatrixView`: a shape together with a sequence of columns of
//! unbounded integers.

use vstd::prelude::*;
use crate::model::{view_add, view_sub, view_submatrix, view_combine, lemma_view_ext};

verus! {

/// Mathematical model of a dense matrix: `elems` is the sequence of columns,
/// so the element in row `i` of column `j` is `elems[j][i]`.
pub ghost struct MatrixView {
    pub rows: nat,
    pub cols: nat,
    pub elems: Seq<Seq<int>>,
}

impl MatrixView {
    /// The columns match the stated shape.
    pub open spec fn wf(self) -> bool {
        &&& self.elems.len() == self.cols
        &&& forall|j: int| 0 <= j < self.cols ==> (#[trigger] self.elems[j]).len() == self.rows
    }

    /// The element in row `i`, column `j`.
    pub open spec fn entry(self, i: int, j: int) -> int {
        self.elems[j][i]
    }

    /// Every element lies in `[-b, b]`.
    pub open spec fn bounded(self, b: int) -> bool {
        forall|i: int, j: int|
            0 <= i < self.rows && 0 <= j < self.cols ==> -b <= #[trigger] self.entry(i, j) <= b
    }
}

/// A dense matrix of signed integers in column-major storage: element `(i, j)`
/// is `data[j * rows + i]`.
#[derive(Clone, Debug)]
pub struct Matrix {
    pub data: Vec<i64>,
    pub rows: usize,
    pub cols: usize,
}

impl Matrix {
    /// The buffer length matches the shape, so every in-range offset is backed
    /// by storage.
    pub open spec fn wf(self) -> bool {
        self.data@.len() == self.rows * self.cols
    }
}

impl View for Matrix {
    type V = MatrixView;

    /// The column-major storage invariant: column `j` of the model is the
    /// slice of the buffer starting at offset `j * rows`.
    open spec fn view(&self) -> MatrixView {
        MatrixView {
            rows: self.rows as nat,
            cols: self.cols as nat,
            elems: Seq::new(
                self.cols as nat,
                |j: int| Seq::new(self.rows as nat, |i: int| self.data@[j * self.rows + i] as int),
            ),
        }
    }
}

/// A column-major offset built from an in-range row and column is itself in
/// range.
pub proof fn lemma_flat_index(i: int, j: int, rows: int, cols: int)
    by (nonlinear_arith)
    requires
        0 <= i < rows,
        0 <= j < cols,
    ensures
        0 <= j * rows + i < rows * cols,
{
}

/// Distinct in-range positions have distinct column-major offsets.
pub proof fn lemma_flat_index_injective(i1: int, j1: int, i2: int, j2: int, rows: int)
    by (nonlinear_arith)
    requires
        0 <= i1 < rows,
        0 <= i2 < rows,
        !(i1 == i2 && j1 == j2),
    ensures
        j1 * rows + i1 != j2 * rows + i2,
{
}

impl Matrix {
    /// Read element `(i, j)`.
    pub fn get(&self, i: usize, j: usize) -> (r: i64)
        requires
            self.wf(),
            i < self.rows,
            j < self.cols,
        ensures
            r as int == self@.entry(i as int, j as int),
    {
        let n = self.data.len();
        proof {
            lemma_flat_index(i as int, j as int, self.rows as int, self.cols as int);
            assert((j as int) * (self.rows as int) + (i as int) < (n as int));
        }
        self.data[j * self.rows + i]
    }

    /// Write element `(i, j)`; every other element is unchanged.
    pub fn set(&mut self, i: usize, j: usize, v: i64)
        requires
            old(self).wf(),
            i < old(self).rows,
            j < old(self).cols,
        ensures
            final(self).wf(),
            final(self).rows == old(self).rows,
            final(self).cols == old(self).cols,
            final(self)@.entry(i as int, j as int) == v as int,
            forall|i2: int, j2: int|
                0 <= i2 < old(self).rows && 0 <= j2 < old(self).cols && !(i2 == i as int && j2
                    == j as int) ==> final(self)@.entry(i2, j2) == old(self)@.entry(i2, j2),
    {
        let n = self.data.len();
        proof {
            lemma_flat_index(i as int, j as int, self.rows as int, self.cols as int);
            assert((j as int) * (self.rows as int) + (i as int) < (n as int));
        }
        let idx = j * self.rows + i;
        self.data.set(idx, v);
        proof {
            let rows = self.rows as int;
            let cols = self.cols as int;
            assert forall|i2: int, j2: int|
                0 <= i2 < rows && 0 <= j2 < cols && !(i2 == i as int && j2
                    == j as int) implies self@.entry(i2, j2) == old(self)@.entry(i2, j2) by {
                lemma_flat_index(i2, j2, rows, cols);
                lemma_flat_index_injective(i2, j2, i as int, j as int, rows);
            }
        }
    }

    /// Zero-filled matrix of the given shape.
    pub fn new(rows: usize, cols: usize) -> (r: Matrix)
        requires
            rows * cols <= usize::MAX,
        ensures
            r.wf(),
            r.rows == rows,
            r.cols == cols,
            forall|i: int, j: int| 0 <= i < rows && 0 <= j < cols ==> r@.entry(i, j) == 0,
    {
        let len = rows * cols;
        let mut data: Vec<i64> = Vec::new();
        let mut k: usize = 0;
        while k < len
            invariant
                k <= len,
                data@.len() == k,
                forall|t: int| 0 <= t < k ==> data@[t] == 0i64,
            decreases len - k,
        {
            data.push(0);
            k = k + 1;
        }
        let r = Matrix { data, rows, cols };
        proof {
            assert forall|i: int, j: int| 0 <= i < rows && 0 <= j < cols implies r@.entry(i, j)
                == 0 by {
                lemma_flat_index(i, j, rows as int, cols as int);
            }
        }
        r
    }

    /// Matrix of the given shape whose elements are drawn uniformly from
    /// `[0, RANDOM_BOUND)`. Used to generate benchmark and test inputs.
    pub fn random(rows: usize, cols: usize) -> (r: Matrix)
        requires
            rows * cols <= usize::MAX,
        ensures
            r.wf(),
            r.rows == rows,
            r.cols == cols,
            forall|i: int, j: int|
                0 <= i < rows && 0 <= j < cols ==> 0 <= #[trigger] r@.entry(i, j)
                    < RANDOM_BOUND,
    {
        let len = rows * cols;
        let mut data: Vec<i64> = Vec::new();
        let mut k: usize = 0;
        while k < len
            invariant
                k <= len,
                data@.len() == k,
                forall|t: int| 0 <= t < k ==> 0 <= #[trigger] data@[t] < RANDOM_BOUND,
            decreases len - k,
        {
            data.push(random_elem());
            k = k + 1;
        }
        let r = Matrix { data, rows, cols };
        proof {
            assert forall|i: int, j: int| 0 <= i < rows && 0 <= j < cols implies 0
                <= #[trigger] r@.entry(i, j) < RANDOM_BOUND by {
                lemma_flat_index(i, j, rows as int, cols as int);
            }
        }
        r
    }

    /// An independently owned copy.
    pub fn duplicate(&self) -> (r: Matrix)
        requires
            self.wf(),
        ensures
            r.wf(),
            r.rows == self.rows,
            r.cols == self.cols,
            r@ == self@,
    {
        let len = self.data.len();
        let mut data: Vec<i64> = Vec::new();
        let mut k: usize = 0;
        while k < len
            invariant
                k <= len,
                len == self.data@.len(),
                data@.len() == k,
                forall|t: int| 0 <= t < k ==> #[trigger] data@[t] == self.data@[t],
            decreases len - k,
        {
            data.push(self.data[k]);
            k = k + 1;
        }
        let r = Matrix { data, rows: self.rows, cols: self.cols };
        proof {
            assert forall|i: int, j: int|
                0 <= i < r.rows && 0 <= j < r.cols implies r@.entry(i, j) == #[trigger] self@.entry(
                i,
                j,
            ) by {
                lemma_flat_index(i, j, r.rows as int, r.cols as int);
            }
            lemma_view_ext(r@, self@);
        }
        r
    }

    /// The half-open rectangular region `[row_start, row_end) x [col_start,
    /// col_end)`, copied into an independently owned matrix.
    #[verifier::loop_isolation(false)]
    pub fn submatrix(
        &self,
        row_start: usize,
        row_end: usize,
        col_start: usize,
        col_end: usize,
    ) -> (r: Matrix)
        requires
            self.wf(),
            row_start <= row_end <= self.rows,
            col_start <= col_end <= self.cols,
        ensures
            r.wf(),
            r.rows == row_end - row_start,
            r.cols == col_end - col_start,
            r@ == view_submatrix(
                self@,
                row_start as int,
                row_end as int,
                col_start as int,
                col_end as int,
            ),
    {
        let nr = row_end - row_start;
        let nc = col_end - col_start;
        let mut data: Vec<i64> = Vec::new();
        let mut j: usize = 0;
        while j < nc
            invariant
                j <= nc,
                data@.len() == j * nr,
                forall|jj: int, ii: int|
                    0 <= jj < j && 0 <= ii < nr ==> #[trigger] data@[jj * nr + ii] == self@.entry(
                        row_start + ii,
                        col_start + jj,
                    ),
            decreases nc - j,
        {
            let mut i: usize = 0;
            while i < nr
                invariant
                    i <= nr,
                    j < nc,
                    data@.len() == j * nr + i,
                    forall|jj: int, ii: int|
                        0 <= jj < j && 0 <= ii < nr ==> #[trigger] data@[jj * nr + ii]
                            == self@.entry(row_start + ii, col_start + jj),
                    forall|ii: int|
                        0 <= ii < i ==> #[trigger] data@[j * nr + ii] == self@.entry(
                            row_start + ii,
                            col_start + j,
                        ),
                decreases nr - i,
            {
                let v = self.get(row_start + i, col_start + j);
                let ghost pre = data@;
                data.push(v);
                proof {
                    assert forall|jj: int, ii: int|
                        0 <= jj < j && 0 <= ii < nr implies #[trigger] data@[jj * nr + ii]
                            == self@.entry(row_start + ii, col_start + jj) by {
                        lemma_flat_index(ii, jj, nr as int, j as int);
                        assert((nr as int) * (j as int) == (j as int) * (nr as int))
                            by (nonlinear_arith);
                        assert(data@[jj * nr + ii] == pre[jj * nr + ii]);
                    }
                }
                i = i + 1;
            }
            proof {
                assert((j + 1) * nr == j * nr + nr) by (nonlinear_arith);
            }
            j = j + 1;
        }
        let r = Matrix { data, rows: nr, cols: nc };
        let ghost sv = view_submatrix(
            self@,
            row_start as int,
            row_end as int,
            col_start as int,
            col_end as int,
        );
        proof {
            assert(r.data@.len() == nc * nr);
            assert(nc * nr == nr * nc) by (nonlinear_arith);
            assert forall|i: int, j: int|
                0 <= i < r.rows && 0 <= j < r.cols implies r@.entry(i, j) == #[trigger] sv.entry(
                i,
                j,
            ) by {
                lemma_flat_index(i, j, nr as int, nc as int);
            }
            lemma_view_ext(r@, sv);
        }
        r
    }

    /// In-place elementwise addition; the operands must have the same shape.
    #[verifier::loop_isolation(false)]
    pub fn add(&mut self, other: &Matrix)
        requires
            old(self).wf(),
            other.wf(),
            old(self).rows == other.rows,
            old(self).cols == other.cols,
            forall|i: int, j: int|
                0 <= i < other.rows && 0 <= j < other.cols ==> i64::MIN <= #[trigger] old(
                    self,
                )@.entry(i, j) + other@.entry(i, j) <= i64::MAX,
        ensures
            final(self).wf(),
            final(self).rows == old(self).rows,
            final(self).cols == old(self).cols,
            final(self)@ == view_add(old(self)@, other@),
    {
        let rows = self.rows;
        let cols = self.cols;
        let mut j: usize = 0;
        while j < cols
            invariant
                j <= cols,
                self.wf(),
                self.rows == rows,
                self.cols == cols,
                rows == old(self).rows,
                cols == old(self).cols,
                forall|ii: int, jj: int|
                    0 <= ii < rows && 0 <= jj < j ==> #[trigger] self@.entry(ii, jj) == old(
                        self,
                    )@.entry(ii, jj) + other@.entry(ii, jj),
                forall|ii: int, jj: int|
                    0 <= ii < rows && j <= jj < cols ==> #[trigger] self@.entry(ii, jj) == old(
                        self,
                    )@.entry(ii, jj),
            decreases cols - j,
        {
            let mut i: usize = 0;
            while i < rows
                invariant
                    i <= rows,
                    j < cols,
                    self.wf(),
                    self.rows == rows,
                    self.cols == cols,
                    rows == old(self).rows,
                    cols == old(self).cols,
                    forall|ii: int, jj: int|
                        0 <= ii < rows && 0 <= jj < j ==> #[trigger] self@.entry(ii, jj) == old(
                            self,
                        )@.entry(ii, jj) + other@.entry(ii, jj),
                    forall|ii: int|
                        0 <= ii < i ==> #[trigger] self@.entry(ii, j as int) == old(self)@.entry(
                            ii,
                            j as int,
                        ) + other@.entry(ii, j as int),
                    forall|ii: int|
                        i <= ii < rows ==> #[trigger] self@.entry(ii, j as int) == old(
                            self,
                        )@.entry(ii, j as int),
                    forall|ii: int, jj: int|
                        0 <= ii < rows && j < jj < cols ==> #[trigger] self@.entry(ii, jj) == old(
                            self,
                        )@.entry(ii, jj),
                decreases rows - i,
            {
                let v = self.get(i, j) + other.get(i, j);
                self.set(i, j, v);
                i = i + 1;
            }
            j = j + 1;
        }
        proof {
            lemma_view_ext(self@, view_add(old(self)@, other@));
        }
    }

    /// In-place elementwise subtraction; the operands must have the same shape.
    #[verifier::loop_isolation(false)]
    pub fn sub(&mut self, other: &Matrix)
        requires
            old(self).wf(),
            other.wf(),
            old(self).rows == other.rows,
            old(self).cols == other.cols,
            forall|i: int, j: int|
                0 <= i < other.rows && 0 <= j < other.cols ==> i64::MIN <= #[trigger] old(
                    self,
                )@.entry(i, j) - other@.entry(i, j) <= i64::MAX,
        ensures
            final(self).wf(),
            final(self).rows == old(self).rows,
            final(self).cols == old(self).cols,
            final(self)@ == view_sub(old(self)@, other@),
    {
        let rows = self.rows;
        let cols = self.cols;
        let mut j: usize = 0;
        while j < cols
            invariant
                j <= cols,
                self.wf(),
                self.rows == rows,
                self.cols == cols,
                rows == old(self).rows,
                cols == old(self).cols,
                forall|ii: int, jj: int|
                    0 <= ii < rows && 0 <= jj < j ==> #[trigger] self@.entry(ii, jj) == old(
                        self,
                    )@.entry(ii, jj) - other@.entry(ii, jj),
                forall|ii: int, jj: int|
                    0 <= ii < rows && j <= jj < cols ==> #[trigger] self@.entry(ii, jj) == old(
                        self,
                    )@.entry(ii, jj),
            decreases cols - j,
        {
            let mut i: usize = 0;
            while i < rows
                invariant
                    i <= rows,
                    j < cols,
                    self.wf(),
                    self.rows == rows,
                    self.cols == cols,
                    rows == old(self).rows,
                    cols == old(self).cols,
                    forall|ii: int, jj: int|
                        0 <= ii < rows && 0 <= jj < j ==> #[trigger] self@.entry(ii, jj) == old(
                            self,
                        )@.entry(ii, jj) - other@.entry(ii, jj),
                    forall|ii: int|
                        0 <= ii < i ==> #[trigger] self@.entry(ii, j as int) == old(self)@.entry(
                            ii,
                            j as int,
                        ) - other@.entry(ii, j as int),
                    forall|ii: int|
                        i <= ii < rows ==> #[trigger] self@.entry(ii, j as int) == old(
                            self,
                        )@.entry(ii, j as int),
                    forall|ii: int, jj: int|
                        0 <= ii < rows && j < jj < cols ==> #[trigger] self@.entry(ii, jj) == old(
                            self,
                        )@.entry(ii, jj),
                decreases rows - i,
            {
                let v = self.get(i, j) - other.get(i, j);
                self.set(i, j, v);
                i = i + 1;
            }
            j = j + 1;
        }
        proof {
            lemma_view_ext(self@, view_sub(old(self)@, other@));
        }
    }

    /// Assemble four quadrants into one matrix, `c11` in the upper left. The
    /// exact inverse of the quadrant split done with `submatrix`.
    #[verifier::loop_isolation(false)]
    pub fn combine_quadrants(c11: &Matrix, c12: &Matrix, c21: &Matrix, c22: &Matrix) -> (r: Matrix)
        requires
            c11.wf(),
            c12.wf(),
            c21.wf(),
            c22.wf(),
            c11.rows == c12.rows,
            c21.rows == c22.rows,
            c11.cols == c21.cols,
            c12.cols == c22.cols,
            c11.rows + c21.rows <= usize::MAX,
            c11.cols + c12.cols <= usize::MAX,
            (c11.rows + c21.rows) * (c11.cols + c12.cols) <= usize::MAX,
        ensures
            r.wf(),
            r.rows == c11.rows + c21.rows,
            r.cols == c11.cols + c12.cols,
            r@ == view_combine(c11@, c12@, c21@, c22@),
    {
        let rt = c11.rows;
        let cl = c11.cols;
        let rows = rt + c21.rows;
        let cols = cl + c12.cols;
        let ghost cv = view_combine(c11@, c12@, c21@, c22@);
        let mut data: Vec<i64> = Vec::new();
        let mut j: usize = 0;
        while j < cols
            invariant
                j <= cols,
                data@.len() == j * rows,
                forall|jj: int, ii: int|
                    0 <= jj < j && 0 <= ii < rows ==> #[trigger] data@[jj * rows + ii] == cv.entry(
                        ii,
                        jj,
                    ),
            decreases cols - j,
        {
            let mut i: usize = 0;
            while i < rows
                invariant
                    i <= rows,
                    j < cols,
                    data@.len() == j * rows + i,
                    forall|jj: int, ii: int|
                        0 <= jj < j && 0 <= ii < rows ==> #[trigger] data@[jj * rows + ii]
                            == cv.entry(ii, jj),
                    forall|ii: int|
                        0 <= ii < i ==> #[trigger] data@[j * rows + ii] == cv.entry(ii, j as int),
                decreases rows - i,
            {
                let v = if i < rt {
                    if j < cl {
                        c11.get(i, j)
                    } else {
                        c12.get(i, j - cl)
                    }
                } else {
                    if j < cl {
                        c21.get(i - rt, j)
                    } else {
                        c22.get(i - rt, j - cl)
                    }
                };
                assert(v as int == cv.entry(i as int, j as int));
                let ghost pre = data@;
                data.push(v);
                proof {
                    assert forall|jj: int, ii: int|
                        0 <= jj < j && 0 <= ii < rows implies #[trigger] data@[jj * rows + ii]
                            == cv.entry(ii, jj) by {
                        lemma_flat_index(ii, jj, rows as int, j as int);
                        assert((rows as int) * (j as int) == (j as int) * (rows as int))
                            by (nonlinear_arith);
                        assert(data@[jj * rows + ii] == pre[jj * rows + ii]);
                    }
                }
                i = i + 1;
            }
            proof {
                assert((j + 1) * rows == j * rows + rows) by (nonlinear_arith);
            }
            j = j + 1;
        }
        let r = Matrix { data, rows, cols };
        proof {
            assert(cols * rows == rows * cols) by (nonlinear_arith);
            assert forall|i: int, j: int|
                0 <= i < r.rows && 0 <= j < r.cols implies r@.entry(i, j) == #[trigger] cv.entry(
                i,
                j,
            ) by {
                lemma_flat_index(i, j, rows as int, cols as int);
            }
            lemma_view_ext(r@, cv);
        }
        r
    }
}

/// Upper bound (exclusive) on the elements that `Matrix::random` draws.
pub const RANDOM_BOUND: i64 = 1000;

/// Relies on rand's `Rng::gen_range` on the thread-local generator: it returns
/// a value drawn uniformly from the half-open range it is given.
#[verifier::external_body]
fn random_elem() -> (r: i64)
    ensures
        0 <= r < RANDOM_BOUND,
{
    rand::Rng::gen_range(&mut rand::thread_rng(), 0..RANDOM_BOUND)
}

} // verus!

