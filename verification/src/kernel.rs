//! The product of a compressed-row matrix and a dense vector, `y = A x`.
//!
//! Each element of `y` is the dot product of one row with `x`: starting from
//! zero, the row's stored entries are taken in stored order, each value is
//! multiplied by the element of `x` that its column names, and the product is
//! added to the running sum. Rows never share a sum, so the order of the rows
//! among themselves does not matter, and the two kernels of this module differ
//! only in who computes which row.

use crate::arith::Arithmetic;
use crate::csr::CsrMatrix;
use crate::csr::CsrModel;
use rayon::iter::IntoParallelIterator;
use rayon::iter::ParallelIterator;
use vstd::prelude::*;

verus! {

/// `acc` is a value that the running sum can have after the first `k` entries
/// of `row`.
pub open spec fn dot_reaches<T, M: Fn(T, T) -> T, A: Fn(T, T) -> T>(
    ar: &Arithmetic<T, M, A>,
    row: Seq<(usize, T)>,
    x: Seq<T>,
    k: nat,
    acc: T,
) -> bool
    decreases k,
{
    if k == 0 {
        acc == ar.zero
    } else {
        exists|prev: T|
            dot_reaches(ar, row, x, (k - 1) as nat, prev) && #[trigger] ar.step(
                prev,
                row[k - 1].1,
                x[row[k - 1].0 as int],
                acc,
            )
    }
}

/// `s` is a dot product of `row` with `x`.
pub open spec fn is_dot<T, M: Fn(T, T) -> T, A: Fn(T, T) -> T>(
    ar: &Arithmetic<T, M, A>,
    row: Seq<(usize, T)>,
    x: Seq<T>,
    s: T,
) -> bool {
    dot_reaches(ar, row, x, row.len(), s)
}

/// `y` is a product of the matrix `m` and the vector `x`: it has one element
/// for each row, the dot product of that row with `x`.
pub open spec fn is_spmv<T, M: Fn(T, T) -> T, A: Fn(T, T) -> T>(
    ar: &Arithmetic<T, M, A>,
    m: CsrModel<T>,
    x: Seq<T>,
    y: Seq<T>,
) -> bool {
    &&& y.len() == m.rows
    &&& forall|i: int| 0 <= i < m.rows ==> is_dot(ar, m.row(i), x, #[trigger] y[i])
}

/// A running sum over `k` entries and one more step make a running sum over
/// `k + 1` entries.
pub proof fn lemma_dot_extends<T, M: Fn(T, T) -> T, A: Fn(T, T) -> T>(
    ar: &Arithmetic<T, M, A>,
    row: Seq<(usize, T)>,
    x: Seq<T>,
    k: nat,
    prev: T,
    next: T,
)
    requires
        dot_reaches(ar, row, x, k, prev),
        ar.step(prev, row[k as int].1, x[row[k as int].0 as int], next),
    ensures
        dot_reaches(ar, row, x, k + 1, next),
{
    assert(row[k + 1 - 1] == row[k as int]);
}

/// A running sum over `k + 1` entries came from a running sum over `k`
/// entries by one step. The lemma returns that earlier sum.
pub proof fn lemma_dot_last_step<T, M: Fn(T, T) -> T, A: Fn(T, T) -> T>(
    ar: &Arithmetic<T, M, A>,
    row: Seq<(usize, T)>,
    x: Seq<T>,
    k: nat,
    next: T,
) -> (prev: T)
    requires
        dot_reaches(ar, row, x, k + 1, next),
    ensures
        dot_reaches(ar, row, x, k, prev),
        ar.step(prev, row[k as int].1, x[row[k as int].0 as int], next),
{
    assert(row[k + 1 - 1] == row[k as int]);
    choose|prev: T|
        dot_reaches(ar, row, x, k, prev) && #[trigger] ar.step(
            prev,
            row[k as int].1,
            x[row[k as int].0 as int],
            next,
        )
}

/// The dot product of row `i` of `a` with `x`.
pub fn row_dot<T: Copy, M: Fn(T, T) -> T, A: Fn(T, T) -> T>(
    a: &CsrMatrix<T>,
    x: &[T],
    ar: &Arithmetic<T, M, A>,
    i: usize,
) -> (s: T)
    requires
        ar.total(),
        x@.len() == a@.cols,
        i < a@.rows,
    ensures
        is_dot(ar, a@.row(i as int), x@, s),
{
    let (start, end) = a.row_bounds(i);
    let ghost row = a@.row(i as int);
    let mut sum = ar.zero;
    let mut k: usize = start;
    while k < end
        invariant
            start <= k <= end <= a@.nnz(),
            start == a@.row_start(i as int),
            end == a@.row_end(i as int),
            row == a@.row(i as int),
            row.len() == end - start,
            ar.total(),
            x@.len() == a@.cols,
            dot_reaches(ar, row, x@, (k - start) as nat, sum),
        decreases end - k,
    {
        let (col, val) = a.entry(k);
        let next = ar.accumulate(sum, val, x[col]);
        proof {
            let done = (k - start) as nat;
            assert(row[done as int] == (col, val));
            lemma_dot_extends(ar, row, x@, done, sum, next);
        }
        sum = next;
        k = k + 1;
    }
    sum
}

/// Computes `y = A x` on the calling thread, row after row.
pub fn spmv_serial<T: Copy, M: Fn(T, T) -> T, A: Fn(T, T) -> T>(
    a: &CsrMatrix<T>,
    x: &[T],
    ar: &Arithmetic<T, M, A>,
) -> (y: Vec<T>)
    requires
        ar.total(),
        x@.len() == a@.cols,
    ensures
        is_spmv(ar, a@, x@, y@),
{
    let nrows = a.rows();
    let mut y: Vec<T> = Vec::with_capacity(nrows);
    let mut i: usize = 0;
    while i < nrows
        invariant
            i <= nrows,
            nrows == a@.rows,
            ar.total(),
            x@.len() == a@.cols,
            y@.len() == i,
            forall|r: int| 0 <= r < i ==> is_dot(ar, a@.row(r), x@, #[trigger] y@[r]),
        decreases nrows - i,
    {
        let sum = row_dot(a, x, ar, i);
        y.push(sum);
        i = i + 1;
    }
    y
}

/// Applies `g` to every index below `n` on rayon's worker pool and collects
/// the results in index order. This is `into_par_iter` on the range `0..n`,
/// then `map`, then `collect` into a vector: a range is an indexed parallel
/// iterator, and collecting one writes the result for index `i` at position
/// `i`. Which worker runs which index, and in what order, is rayon's choice.
#[verifier::external_body]
fn par_collect<R: Send, G: Fn(usize) -> R + Sync + Send>(n: usize, g: G) -> (out: Vec<R>)
    requires
        forall|i: usize| i < n ==> #[trigger] g.requires((i,)),
    ensures
        out@.len() == n,
        forall|i: int| 0 <= i < n ==> g.ensures((i as usize,), #[trigger] out@[i]),
{
    (0..n).into_par_iter().map(g).collect()
}

/// Computes `y = A x` with the rows shared out among the workers of a pool.
/// Every row is summed by one worker, from its first stored entry to its
/// last, exactly as the serial kernel sums it. A matrix without rows gives an
/// empty vector and starts no worker.
pub fn spmv_parallel<T, M, A>(a: &CsrMatrix<T>, x: &[T], ar: &Arithmetic<T, M, A>) -> (y: Vec<T>)
    where
        T: Copy + Send + Sync,
        M: Fn(T, T) -> T + Sync,
        A: Fn(T, T) -> T + Sync,
    requires
        ar.total(),
        x@.len() == a@.cols,
    ensures
        is_spmv(ar, a@, x@, y@),
{
    let nrows = a.rows();
    if nrows == 0 {
        return Vec::new();
    }
    let one_row = |i: usize| -> (s: T)
        requires
            i < a@.rows,
        ensures
            is_dot(ar, a@.row(i as int), x@, s),
        { row_dot(a, x, ar, i) };
    par_collect(nrows, one_row)
}

} // verus!
