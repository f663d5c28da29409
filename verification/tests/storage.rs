use csr_spmv::csr::CsrError;
use csr_spmv::csr::CsrMatrix;

fn sample() -> CsrMatrix<f64> {
    CsrMatrix::new(3, 3, vec![0, 1, 2, 4], vec![0, 1, 0, 2], vec![2.0, 3.0, 1.0, 4.0]).unwrap()
}

#[test]
fn dimensions_and_entry_count() {
    let a = sample();
    assert_eq!(a.rows(), 3);
    assert_eq!(a.cols(), 3);
    assert_eq!(a.nnz(), 4);
}

#[test]
fn rows_come_out_in_stored_order() {
    let a = sample();
    assert_eq!(a.row(0), vec![(0, 2.0)]);
    assert_eq!(a.row(1), vec![(1, 3.0)]);
    assert_eq!(a.row(2), vec![(0, 1.0), (2, 4.0)]);
}

#[test]
fn unsorted_row_keeps_its_order() {
    let a = CsrMatrix::new(1, 4, vec![0, 3], vec![3, 0, 2], vec![1.0, 2.0, 3.0]).unwrap();
    assert_eq!(a.row(0), vec![(3, 1.0), (0, 2.0), (2, 3.0)]);
}

#[test]
fn row_without_entries_is_empty() {
    let a = CsrMatrix::new(3, 2, vec![0, 1, 1, 2], vec![1, 0], vec![2.0, 3.0]).unwrap();
    assert_eq!(a.row(1), Vec::<(usize, f64)>::new());
    assert_eq!(a.row_bounds(1), (1, 1));
}

#[test]
fn row_bounds_are_the_offsets() {
    let a = sample();
    assert_eq!(a.row_bounds(0), (0, 1));
    assert_eq!(a.row_bounds(1), (1, 2));
    assert_eq!(a.row_bounds(2), (2, 4));
}

#[test]
fn entry_gives_column_and_value() {
    let a = sample();
    assert_eq!(a.entry(0), (0, 2.0));
    assert_eq!(a.entry(2), (0, 1.0));
    assert_eq!(a.entry(3), (2, 4.0));
}

#[test]
fn empty_matrix_is_valid() {
    let a = CsrMatrix::<f64>::new(0, 0, vec![0], vec![], vec![]).unwrap();
    assert_eq!(a.rows(), 0);
    assert_eq!(a.cols(), 0);
    assert_eq!(a.nnz(), 0);
}

#[test]
fn offsets_of_wrong_length_are_refused() {
    let r = CsrMatrix::new(3, 3, vec![0, 1, 2], vec![0, 1], vec![1.0, 2.0]);
    assert_eq!(r.unwrap_err(), CsrError::RowPtrLength);
    let r = CsrMatrix::<f64>::new(0, 3, vec![], vec![], vec![]);
    assert_eq!(r.unwrap_err(), CsrError::RowPtrLength);
}

#[test]
fn columns_and_values_of_different_length_are_refused() {
    let r = CsrMatrix::new(1, 3, vec![0, 2], vec![0, 1], vec![1.0]);
    assert_eq!(r.unwrap_err(), CsrError::LengthMismatch);
}

#[test]
fn offsets_not_starting_at_zero_are_refused() {
    let r = CsrMatrix::new(1, 3, vec![1, 2], vec![0, 1], vec![1.0, 2.0]);
    assert_eq!(r.unwrap_err(), CsrError::RowPtrStart);
}

#[test]
fn decreasing_offsets_are_refused() {
    let r = CsrMatrix::new(3, 3, vec![0, 2, 1, 3], vec![0, 1, 2], vec![1.0, 2.0, 3.0]);
    assert_eq!(r.unwrap_err(), CsrError::RowPtrOrder);
}

#[test]
fn last_offset_must_be_the_entry_count() {
    let r = CsrMatrix::new(2, 3, vec![0, 1, 2], vec![0, 1, 2], vec![1.0, 2.0, 3.0]);
    assert_eq!(r.unwrap_err(), CsrError::RowPtrEnd);
    let r = CsrMatrix::new(2, 3, vec![0, 1, 4], vec![0, 1, 2], vec![1.0, 2.0, 3.0]);
    assert_eq!(r.unwrap_err(), CsrError::RowPtrEnd);
}

#[test]
fn column_out_of_range_is_refused() {
    let r = CsrMatrix::new(2, 3, vec![0, 1, 2], vec![0, 3], vec![1.0, 2.0]);
    assert_eq!(r.unwrap_err(), CsrError::ColumnOutOfRange);
}

#[test]
fn first_broken_rule_is_reported() {
    let r = CsrMatrix::new(2, 1, vec![0, 5], vec![9], vec![1.0, 2.0]);
    assert_eq!(r.unwrap_err(), CsrError::RowPtrLength);
    let r = CsrMatrix::new(1, 1, vec![3, 1], vec![9], vec![1.0, 2.0]);
    assert_eq!(r.unwrap_err(), CsrError::LengthMismatch);
    let r = CsrMatrix::new(2, 1, vec![0, 2, 1], vec![9, 9], vec![1.0, 2.0]);
    assert_eq!(r.unwrap_err(), CsrError::RowPtrOrder);
}
