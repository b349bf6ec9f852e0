use matrix_engine::engine::{multiply, MultiplyError};
use matrix_engine::matrix::Matrix;
use matrix_engine::vector::{dot_product, DotError, Vector};

#[test]
fn test_matrix_multiply() {
    let a = Matrix::new(vec![1, 2, 3, 4, 5, 6], 2, 3);
    let b = Matrix::new(vec![1, 2, 3, 4, 5, 6], 3, 2);
    let c = multiply(&a, &b).unwrap();
    assert_eq!(c.col, 2);
    assert_eq!(c.row, 2);
    assert_eq!(c.data, vec![22, 28, 49, 64]);
    assert_eq!(c.describe(), "Matrix(row=2, col=2, {22 28, 49 64})");
}

#[test]
fn identity_times_matrix_is_unchanged() {
    let id = Matrix::identity(3);
    let b = Matrix::new(vec![5, -7, 11, 0, 2, 3], 3, 2);
    let c = multiply(&id, &b).unwrap();
    assert_eq!(c.row, 3);
    assert_eq!(c.col, 2);
    assert_eq!(c.data, vec![5, -7, 11, 0, 2, 3]);
}

#[test]
fn multiply_twice_is_bit_identical() {
    let a = Matrix::new(vec![9, -3, 0, 7, 1, -8], 3, 2);
    let b = Matrix::new(vec![4, -1, 2, 6], 2, 2);
    let c1 = multiply(&a, &b).unwrap();
    let c2 = multiply(&a, &b).unwrap();
    assert_eq!(c1.row, c2.row);
    assert_eq!(c1.col, c2.col);
    assert_eq!(c1.data, c2.data);
}

#[test]
fn mismatched_inner_dimensions_fail() {
    let a = Matrix::new(vec![1, 2, 3, 4, 5, 6], 2, 3);
    let b = Matrix::new(vec![1, 2, 3, 4], 2, 2);
    assert_eq!(multiply(&a, &b), Err(MultiplyError::DimensionMismatch));
}

#[test]
fn overflowing_cell_is_reported() {
    let a = Matrix::new(vec![i64::MAX], 1, 1);
    let b = Matrix::new(vec![2], 1, 1);
    assert_eq!(
        multiply(&a, &b),
        Err(MultiplyError::DotProductFailure(DotError::Overflow))
    );
}

#[test]
fn dot_product_exact_value() {
    let x = Vector::new(vec![1, 2, 3]);
    let y = Vector::new(vec![4, 5, 6]);
    assert_eq!(dot_product(x, y), Ok(32));
}

#[test]
fn dot_product_length_mismatch() {
    let x = Vector::new(vec![1, 2]);
    let y = Vector::new(vec![1, 2, 3]);
    assert_eq!(dot_product(x, y), Err(DotError::LengthMismatch));
}

#[test]
fn dot_product_sum_overflow() {
    let x = Vector::new(vec![i64::MAX, i64::MAX]);
    let y = Vector::new(vec![1, 1]);
    assert_eq!(dot_product(x, y), Err(DotError::Overflow));
}

#[test]
fn empty_matrix_description() {
    let m = Matrix::new(vec![], 0, 0);
    assert_eq!(m.describe(), "Matrix(row=0, col=0, {})");
}

#[test]
fn negative_cells_description() {
    let m = Matrix::new(vec![-1, 20, 3, -40], 2, 2);
    assert_eq!(m.describe(), "Matrix(row=2, col=2, {-1 20, 3 -40})");
}
