//! Sparse matrix-vector products on compressed-row matrices, computed row by
//! row on one thread or on a pool of workers, and the bookkeeping needed to
//! measure their throughput.

pub mod arith;
pub mod bench;
pub mod csr;
pub mod kernel;
pub mod laws;
