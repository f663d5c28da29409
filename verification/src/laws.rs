//! What holds of every product, whichever kernel computed it.
//!
//! Both kernels promise `is_spmv` of what they return, so each statement here
//! that assumes `is_spmv` of a vector speaks of the output of either.

use crate::arith::Arithmetic;
use crate::csr::CsrModel;
use crate::kernel::dot_reaches;
use crate::kernel::is_dot;
use crate::kernel::is_spmv;
use crate::kernel::lemma_dot_last_step;
use vstd::prelude::*;

verus! {

/// With deterministic arithmetic, one step from a running sum leads to one
/// value only.
pub proof fn lemma_step_unique<T, M: Fn(T, T) -> T, A: Fn(T, T) -> T>(
    ar: &Arithmetic<T, M, A>,
    acc: T,
    v: T,
    xv: T,
    n1: T,
    n2: T,
)
    requires
        ar.deterministic(),
        ar.step(acc, v, xv, n1),
        ar.step(acc, v, xv, n2),
    ensures
        n1 == n2,
{
    let t1 = choose|term: T|
        #![trigger ar.add.ensures((acc, term), n1)]
        ar.mul.ensures((v, xv), term) && ar.add.ensures((acc, term), n1);
    let t2 = choose|term: T|
        #![trigger ar.add.ensures((acc, term), n2)]
        ar.mul.ensures((v, xv), term) && ar.add.ensures((acc, term), n2);
    assert(t1 == t2);
}

/// Where `one` times anything is that thing, a step with the stored value
/// `one` adds the vector's element itself to the running sum.
pub proof fn lemma_step_with_unit<T, M: Fn(T, T) -> T, A: Fn(T, T) -> T>(
    ar: &Arithmetic<T, M, A>,
    one: T,
    acc: T,
    xv: T,
    next: T,
)
    requires
        ar.left_unit(one),
        ar.step(acc, one, xv, next),
    ensures
        ar.add.ensures((acc, xv), next),
{
    let term = choose|term: T|
        #![trigger ar.add.ensures((acc, term), next)]
        ar.mul.ensures((one, xv), term) && ar.add.ensures((acc, term), next);
    assert(term == xv);
}

/// With deterministic arithmetic, the running sum after `k` entries of a row
/// can have one value only.
pub proof fn lemma_dot_reaches_unique<T, M: Fn(T, T) -> T, A: Fn(T, T) -> T>(
    ar: &Arithmetic<T, M, A>,
    row: Seq<(usize, T)>,
    x: Seq<T>,
    k: nat,
    s1: T,
    s2: T,
)
    requires
        ar.deterministic(),
        dot_reaches(ar, row, x, k, s1),
        dot_reaches(ar, row, x, k, s2),
    ensures
        s1 == s2,
    decreases k,
{
    if k > 0 {
        let j = (k - 1) as nat;
        let p1 = lemma_dot_last_step(ar, row, x, j, s1);
        let p2 = lemma_dot_last_step(ar, row, x, j, s2);
        lemma_dot_reaches_unique(ar, row, x, j, p1, p2);
        lemma_step_unique(ar, p1, row[j as int].1, x[row[j as int].0 as int], s1, s2);
    }
}

/// With deterministic arithmetic a matrix and a vector have one product: two
/// vectors that are both products of `m` and `x` are equal, element for
/// element. The serial and the parallel kernel therefore return the same
/// vector, because each row is summed in its stored order by both.
pub proof fn lemma_spmv_unique<T, M: Fn(T, T) -> T, A: Fn(T, T) -> T>(
    ar: &Arithmetic<T, M, A>,
    m: CsrModel<T>,
    x: Seq<T>,
    y1: Seq<T>,
    y2: Seq<T>,
)
    requires
        ar.deterministic(),
        is_spmv(ar, m, x, y1),
        is_spmv(ar, m, x, y2),
    ensures
        y1 == y2,
{
    assert forall|i: int| 0 <= i < y1.len() implies y1[i] == y2[i] by {
        lemma_dot_reaches_unique(ar, m.row(i), x, m.row(i).len(), y1[i], y2[i]);
    }
    assert(y1 =~= y2);
}

/// A row without stored entries gives zero, whatever the vector holds.
pub proof fn lemma_empty_row_gives_zero<T, M: Fn(T, T) -> T, A: Fn(T, T) -> T>(
    ar: &Arithmetic<T, M, A>,
    m: CsrModel<T>,
    x: Seq<T>,
    y: Seq<T>,
    i: int,
)
    requires
        is_spmv(ar, m, x, y),
        0 <= i < m.rows,
        m.row(i).len() == 0,
    ensures
        y[i] == ar.zero,
{
    assert(is_dot(ar, m.row(i), x, y[i]));
}

/// The product of a matrix without stored entries is a vector of `rows`
/// zeros, whatever its dimensions and whatever the vector holds.
pub proof fn lemma_zero_matrix<T, M: Fn(T, T) -> T, A: Fn(T, T) -> T>(
    ar: &Arithmetic<T, M, A>,
    m: CsrModel<T>,
    x: Seq<T>,
    y: Seq<T>,
)
    requires
        m.valid(),
        m.nnz() == 0,
        is_spmv(ar, m, x, y),
    ensures
        y == Seq::new(m.rows, |i: int| ar.zero),
{
    assert forall|i: int| 0 <= i < y.len() implies y[i] == ar.zero by {
        m.lemma_no_entries_rows_empty(i);
        lemma_empty_row_gives_zero(ar, m, x, y, i);
    }
    assert(y =~= Seq::new(m.rows, |i: int| ar.zero));
}

/// `acc` is a value that the running sum can have after the first `k`
/// elements of `x` were added to zero, in order.
pub open spec fn sum_reaches<T, M: Fn(T, T) -> T, A: Fn(T, T) -> T>(
    ar: &Arithmetic<T, M, A>,
    x: Seq<T>,
    k: nat,
    acc: T,
) -> bool
    decreases k,
{
    if k == 0 {
        acc == ar.zero
    } else {
        exists|prev: T|
            sum_reaches(ar, x, (k - 1) as nat, prev) && #[trigger] ar.add.ensures(
                (prev, x[k - 1]),
                acc,
            )
    }
}

/// `row` stores exactly one entry, `one`, in column `i`.
pub open spec fn unit_row<T>(row: Seq<(usize, T)>, i: int, one: T) -> bool {
    &&& row.len() == 1
    &&& row[0].0 == i
    &&& row[0].1 == one
}

/// `row` stores `one` in each of `n` columns, in column order.
pub open spec fn dense_ones_row<T>(row: Seq<(usize, T)>, n: nat, one: T) -> bool {
    &&& row.len() == n
    &&& forall|c: int| 0 <= c < n ==> (#[trigger] row[c]).0 == c && row[c].1 == one
}

/// A square matrix whose row `i` stores the single entry `one` in column `i`
/// maps every vector to itself, where `one` times anything is that thing and
/// zero plus anything is that thing.
pub proof fn lemma_identity<T, M: Fn(T, T) -> T, A: Fn(T, T) -> T>(
    ar: &Arithmetic<T, M, A>,
    m: CsrModel<T>,
    one: T,
    x: Seq<T>,
    y: Seq<T>,
)
    requires
        ar.left_unit(one),
        ar.zero_neutral(),
        m.rows == m.cols,
        x.len() == m.cols,
        forall|i: int| 0 <= i < m.rows ==> unit_row(#[trigger] m.row(i), i, one),
        is_spmv(ar, m, x, y),
    ensures
        y == x,
{
    assert forall|i: int| 0 <= i < y.len() implies y[i] == x[i] by {
        let row = m.row(i);
        assert(unit_row(row, i, one));
        assert(is_dot(ar, row, x, y[i]));
        let prev = lemma_dot_last_step(ar, row, x, 0, y[i]);
        lemma_step_with_unit(ar, one, prev, x[i], y[i]);
    }
    assert(y =~= x);
}

/// Over a row that stores `one` in every column, in column order, the running
/// sum of the dot product is the running sum of the vector's elements, where
/// `one` times anything is that thing.
pub proof fn lemma_dense_ones_row_sums<T, M: Fn(T, T) -> T, A: Fn(T, T) -> T>(
    ar: &Arithmetic<T, M, A>,
    row: Seq<(usize, T)>,
    one: T,
    x: Seq<T>,
    k: nat,
    acc: T,
)
    requires
        ar.left_unit(one),
        k <= x.len(),
        dense_ones_row(row, x.len(), one),
        dot_reaches(ar, row, x, k, acc),
    ensures
        sum_reaches(ar, x, k, acc),
    decreases k,
{
    if k > 0 {
        let j = (k - 1) as nat;
        assert(row[j as int].0 == j && row[j as int].1 == one);
        let prev = lemma_dot_last_step(ar, row, x, j, acc);
        lemma_dense_ones_row_sums(ar, row, one, x, j, prev);
        lemma_step_with_unit(ar, one, prev, x[j as int], acc);
    }
}

/// A matrix of one row that stores `one` in every column, in column order,
/// maps a vector to the sum of its elements, added to zero from the first to
/// the last, where `one` times anything is that thing.
pub proof fn lemma_single_dense_row<T, M: Fn(T, T) -> T, A: Fn(T, T) -> T>(
    ar: &Arithmetic<T, M, A>,
    m: CsrModel<T>,
    one: T,
    x: Seq<T>,
    y: Seq<T>,
)
    requires
        ar.left_unit(one),
        m.rows == 1,
        x.len() == m.cols,
        dense_ones_row(m.row(0), m.cols, one),
        is_spmv(ar, m, x, y),
    ensures
        y.len() == 1,
        sum_reaches(ar, x, x.len(), y[0]),
{
    assert(is_dot(ar, m.row(0), x, y[0]));
    lemma_dense_ones_row_sums(ar, m.row(0), one, x, x.len(), y[0]);
}

} // verus!
