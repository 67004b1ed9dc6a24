//! Dense matrix multiplication, three ways: a straightforward triple loop, a
//! recursive eight-product quadrant scheme, and Strassen's seven-product
//! scheme, each proved to return exactly the mathematical product of its
//! inputs. Matrices hold signed integers in column-major storage; the two
//! recursive multipliers can fan their sub-products out over a thread pool.

pub mod divide_conquer_matmul;
pub mod error;
pub mod iterative_matmul;
pub mod laws;
pub mod matrix;
pub mod model;
pub mod strassen_matmul;
