//! Why a multiplication request is refused. Every multiplier validates its
//! inputs before any computation and reports one of these instead of a result.

use vstd::prelude::*;

verus! {

/// A failed multiplication request.
#[derive(Clone, Copy, Debug, PartialEq, Eq, Structural)]
pub enum MatmulError {
    /// The shared dimension does not agree (`a_cols != b_rows`); carries all
    /// four dimensions for diagnosis.
    DimensionMismatch { a_rows: usize, a_cols: usize, b_rows: usize, b_cols: usize },
    /// Parallel mode was requested, but the worker pool has too few workers to
    /// run tasks side by side.
    Configuration { workers: usize },
}

} // verus!
