//! Laws that relate the multiplication engines to one another. Each engine's
//! own contract pins its result to the mathematical product `view_mul`; the
//! proofs here state the consequences a caller may rely on: every strategy,
//! every threshold and every mode returns the same matrix.

use vstd::prelude::*;
use crate::matrix::Matrix;
use crate::model::view_mul;
use crate::iterative_matmul::{iterative_matmul, reference_matmul};
use crate::divide_conquer_matmul::{divide_conquer_matmul, divide_conquer_with_workers};
use crate::strassen_matmul::{strassen_matmul, strassen_with_workers};
use crate::error::MatmulError;

verus! {

/// Whatever the thresholds and modes, a successful result of the iterative,
/// divide-and-conquer, or Strassen multiplier is elementwise equal to the
/// naive reference product — not merely close to it.
pub proof fn lemma_all_strategies_agree(
    a: Matrix,
    b: Matrix,
    t1: usize,
    q1: bool,
    t2: usize,
    q2: bool,
    c0: Matrix,
    c1: Matrix,
    c2: Matrix,
    c3: Matrix,
)
    requires
        call_ensures(reference_matmul, (&a, &b), c0),
        call_ensures(iterative_matmul, (&a, &b), Result::<Matrix, MatmulError>::Ok(c1)),
        call_ensures(
            divide_conquer_matmul,
            (&a, &b, t1, q1),
            Result::<Matrix, MatmulError>::Ok(c2),
        ),
        call_ensures(strassen_matmul, (&a, &b, t2, q2), Result::<Matrix, MatmulError>::Ok(c3)),
    ensures
        c0@ == view_mul(a@, b@),
        c1@ == c0@,
        c2@ == c0@,
        c3@ == c0@,
{
}

/// Parallel and sequential divide-and-conquer runs on the same operands return
/// the same matrix, whatever the thresholds and worker counts.
pub proof fn lemma_divide_conquer_mode_irrelevant(
    a: Matrix,
    b: Matrix,
    t1: usize,
    w1: usize,
    t2: usize,
    w2: usize,
    c1: Matrix,
    c2: Matrix,
)
    requires
        call_ensures(
            divide_conquer_with_workers,
            (&a, &b, t1, true, w1),
            Result::<Matrix, MatmulError>::Ok(c1),
        ),
        call_ensures(
            divide_conquer_with_workers,
            (&a, &b, t2, false, w2),
            Result::<Matrix, MatmulError>::Ok(c2),
        ),
    ensures
        c1@ == c2@,
{
}

/// Parallel and sequential Strassen runs on the same operands return the same
/// matrix, whatever the thresholds and worker counts.
pub proof fn lemma_strassen_mode_irrelevant(
    a: Matrix,
    b: Matrix,
    t1: usize,
    w1: usize,
    t2: usize,
    w2: usize,
    c1: Matrix,
    c2: Matrix,
)
    requires
        call_ensures(
            strassen_with_workers,
            (&a, &b, t1, true, w1),
            Result::<Matrix, MatmulError>::Ok(c1),
        ),
        call_ensures(
            strassen_with_workers,
            (&a, &b, t2, false, w2),
            Result::<Matrix, MatmulError>::Ok(c2),
        ),
    ensures
        c1@ == c2@,
{
}

} // verus!
