//! Timing a kernel and accounting for the work it did.
//!
//! A benchmark runs a kernel twice on the same matrix and vector. The first
//! run warms up and is not measured; the second is timed. From the matrix
//! alone it follows how many floating-point operations the product took and
//! how many bytes it moved. Divided by the elapsed nanoseconds, these counts
//! are the throughput in GFLOP/s and the bandwidth in GB/s: one operation per
//! nanosecond is one GFLOP/s, one byte per nanosecond is one GB/s.

use crate::csr::CsrMatrix;
use std::time::Duration;
use std::time::Instant;
use vstd::prelude::*;

verus! {

/// Operations of one product: a multiply and an add for each stored entry,
/// however the entries are spread over the rows.
pub open spec fn flops_of(nnz: nat) -> nat {
    2 * nnz
}

/// Bytes that one product moves: the values at 8 bytes each, the column
/// indices at 4, the `rows + 1` row offsets at 4, and 8 bytes a row for
/// reading the input vector and 8 for writing the output vector.
pub open spec fn traffic_of(rows: nat, nnz: nat) -> nat {
    8 * nnz + 4 * nnz + 4 * (rows + 1) + 8 * rows + 8 * rows
}

/// What one benchmark measured and derived.
#[derive(Debug)]
pub struct BenchmarkResult {
    /// Name of the kernel that was timed.
    pub label: String,
    /// Wall-clock time of the timed run, in nanoseconds.
    pub elapsed_nanos: u128,
    /// Floating-point operations of the timed run.
    pub flops: u128,
    /// Bytes moved by the timed run.
    pub bytes: u128,
}

/// A moment on std's monotonic clock.
#[verifier::external_type_specification]
#[verifier::external_body]
pub struct ExInstant(Instant);

/// `Instant::now` reads the monotonic clock. Nothing is claimed of the
/// moment it returns.
pub assume_specification[ Instant::now ]() -> (t: Instant);

/// `Instant::elapsed` gives the time that has passed since the moment was
/// taken. Nothing is claimed of the duration it returns.
pub assume_specification[ Instant::elapsed ](t: &Instant) -> (d: Duration);

/// `Duration::as_nanos` gives a duration as a whole number of nanoseconds.
/// Nothing is claimed of the number, since nothing here says what a duration
/// holds.
pub assume_specification[ Duration::as_nanos ](d: &Duration) -> (n: u128);

/// Number of floating-point operations of one product with a matrix of `nnz`
/// stored entries.
pub fn flop_count(nnz: usize) -> (n: u128)
    ensures
        n == flops_of(nnz as nat),
{
    let wide: u128 = nnz as u128;
    2 * wide
}

/// Number of bytes that one product with a matrix of `rows` rows and `nnz`
/// stored entries moves.
pub fn traffic_bytes(rows: usize, nnz: usize) -> (n: u128)
    ensures
        n == traffic_of(rows as nat, nnz as nat),
{
    let r: u128 = rows as u128;
    let z: u128 = nnz as u128;
    let bytes_values: u128 = 8 * z;
    let bytes_indices: u128 = 4 * z;
    let bytes_offsets: u128 = 4 * (r + 1);
    let bytes_x: u128 = 8 * r;
    let bytes_y: u128 = 8 * r;
    bytes_values + bytes_indices + bytes_offsets + bytes_x + bytes_y
}

/// The result of a timed run of `elapsed_nanos` nanoseconds on the matrix
/// `a`, under the name `name`.
pub fn derive_metrics<T>(name: &str, a: &CsrMatrix<T>, elapsed_nanos: u128) -> (r: BenchmarkResult)
    ensures
        r.label@ == name@,
        r.elapsed_nanos == elapsed_nanos,
        r.flops == flops_of(a@.nnz()),
        r.bytes == traffic_of(a@.rows, a@.nnz()),
{
    let rows = a.rows();
    let nnz = a.nnz();
    BenchmarkResult {
        label: name.to_owned(),
        elapsed_nanos,
        flops: flop_count(nnz),
        bytes: traffic_bytes(rows, nnz),
    }
}

/// Runs `kernel` on `a` and `x` twice, discards what the first run returns,
/// times the second, and derives the result from the time that the clock
/// gave. The elapsed time is whatever the clock measured; the counts depend
/// on the matrix alone.
pub fn benchmark<T, K>(name: &str, a: &CsrMatrix<T>, x: &[T], kernel: K) -> (r: BenchmarkResult)
    where K: Fn(&CsrMatrix<T>, &[T]) -> Vec<T>
    requires
        kernel.requires((a, x)),
    ensures
        r.label@ == name@,
        r.flops == flops_of(a@.nnz()),
        r.bytes == traffic_of(a@.rows, a@.nnz()),
{
    let _ = kernel(a, x);
    let start = Instant::now();
    let _y = kernel(a, x);
    let elapsed = start.elapsed();
    derive_metrics(name, a, elapsed.as_nanos())
}

} // verus!
