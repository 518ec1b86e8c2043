use playground::matrix::dense::{Matrix, MatrixRepr, MatrixRow};
use playground::matrix::dim::Dim;
use playground::matrix::item::MatrixItem;
use playground::matrix::square::SquareMatrix;
use playground::util::error::Error;
use playground::util::math::get_i32_len;
use playground::util::print::{Align, PrintConfig, PRECISION};

fn matrix_of(rows: &[&[i64]]) -> Matrix<i64> {
    let m = rows.len();
    let n = rows[0].len();
    let mut matrix = Matrix::new(Dim::new(m, n));
    matrix.fill_fn(|i, j| rows[i][j]);
    matrix
}

fn rows_of(matrix: &Matrix<i64>) -> Vec<Vec<i64>> {
    let dim = matrix.get_dim();
    (0..dim.get_m())
        .map(|i| (0..dim.get_n()).map(|j| matrix.get(i, j)).collect())
        .collect()
}

#[test]
fn dim_queries() {
    let mut dim = Dim::new(2, 3);
    assert!(!dim.is_square());
    dim.flip();
    assert_eq!((dim.get_m(), dim.get_n()), (3, 2));
    assert!(Dim::new(4, 4).is_square());
}

#[test]
fn new_matrix_is_zero() {
    let matrix = Matrix::<i64>::new(Dim::new(2, 3));
    assert_eq!(rows_of(&matrix), vec![vec![0, 0, 0], vec![0, 0, 0]]);
    assert_eq!(matrix.get_data().len(), 6);
}

#[test]
fn echelon_two_by_two() {
    let reduced = matrix_of(&[&[1, 2], &[3, 4]]).to_echelon_form();
    assert_eq!(rows_of(&reduced), vec![vec![1, 2], vec![0, -2]]);
}

#[test]
fn det_two_by_two() {
    let square = SquareMatrix::try_from_matrix(matrix_of(&[&[1, 2], &[3, 4]])).unwrap();
    assert_eq!(square.det(), -2);
}

#[test]
fn echelon_swaps_zero_pivot() {
    let reduced = matrix_of(&[&[0, 1], &[2, 3]]).to_echelon_form();
    assert_eq!(rows_of(&reduced), vec![vec![2, 3], vec![0, 1]]);
}

#[test]
fn echelon_skips_free_column() {
    let reduced = matrix_of(&[&[0, 1, 2], &[0, 2, 5], &[0, 3, 1]]).to_echelon_form();
    assert_eq!(
        rows_of(&reduced),
        vec![vec![0, 1, 2], vec![0, 0, 1], vec![0, 0, 0]]
    );
}

#[test]
fn echelon_three_by_three() {
    let reduced = matrix_of(&[&[2, 1, 1], &[4, 3, 3], &[8, 7, 9]]).to_echelon_form();
    assert_eq!(
        rows_of(&reduced),
        vec![vec![2, 1, 1], vec![0, 1, 1], vec![0, 0, 2]]
    );
    let square = SquareMatrix::try_from_matrix(matrix_of(&[&[2, 1, 1], &[4, 3, 3], &[8, 7, 9]]))
        .unwrap();
    assert_eq!(square.det(), 4);
}

#[test]
fn echelon_twice_is_echelon_once() {
    let once = matrix_of(&[&[1, 2, 3], &[2, 5, 7], &[3, 1, 4]]).to_echelon_form();
    let once_rows = rows_of(&once);
    let twice = once.to_echelon_form();
    assert_eq!(rows_of(&twice), once_rows);
}

#[test]
fn echelon_twice_on_integers_can_differ() {
    let once = matrix_of(&[&[2, 0], &[3, 1], &[5, 3]]).to_echelon_form();
    assert_eq!(rows_of(&once), vec![vec![2, 0], vec![1, 1], vec![-2, 0]]);
    let twice = once.to_echelon_form();
    assert_eq!(rows_of(&twice), vec![vec![2, 0], vec![1, 1], vec![0, 0]]);
}

#[test]
fn echelon_with_pivot_count() {
    let (reduced, pivots) = matrix_of(&[&[1, 2], &[2, 4]]).as_echelon_form();
    assert_eq!(rows_of(&reduced), vec![vec![1, 2], vec![0, 0]]);
    assert_eq!(pivots, 1);
    let (_, pivots) = matrix_of(&[&[1, 2], &[3, 4]]).as_echelon_form();
    assert_eq!(pivots, 2);
    let (_, pivots) = matrix_of(&[&[0, 1, 2], &[0, 2, 5], &[0, 3, 1]]).as_echelon_form();
    assert_eq!(pivots, 2);
    let (_, pivots) = Matrix::<i64>::new(Dim::new(3, 2)).as_echelon_form();
    assert_eq!(pivots, 0);
}

#[test]
fn multiply_row_by_column() {
    let a = matrix_of(&[&[1, 2]]);
    let b = matrix_of(&[&[3], &[4]]);
    let product = a.multiply(&b).unwrap();
    assert_eq!(rows_of(&product), vec![vec![11]]);
}

#[test]
fn multiply_incompatible_is_none() {
    let a = matrix_of(&[&[1, 2]]);
    let b = matrix_of(&[&[1, 2]]);
    assert!(a.multiply(&b).is_none());
}

#[test]
fn multiply_shape_law() {
    let a = matrix_of(&[&[1, 0, 2], &[0, 1, 1]]);
    let b = matrix_of(&[&[1, 2, 0, 1], &[0, 1, 1, 0], &[2, 0, 1, 1]]);
    let product = a.multiply(&b).unwrap();
    assert_eq!(product.get_dim(), Dim::new(2, 4));
    assert_eq!(
        rows_of(&product),
        vec![vec![5, 2, 2, 3], vec![2, 1, 2, 1]]
    );
    assert!(b.multiply(&a).is_none());
}

#[test]
fn fold_row_changes_only_target() {
    let mut matrix = matrix_of(&[&[1, 2, 3], &[4, 5, 6], &[7, 8, 9]]);
    matrix.fold_row(2, 0, -2);
    assert_eq!(
        rows_of(&matrix),
        vec![vec![1, 2, 3], vec![4, 5, 6], vec![5, 4, 3]]
    );
}

#[test]
fn matrix_row_fold() {
    let mut row = MatrixRow(vec![1i64, 1, 1]);
    row.fold(&MatrixRow(vec![2, 3]), 10);
    assert_eq!(row.0, vec![21, 31, 1]);
}

#[test]
fn swap_rows_exchanges() {
    let mut matrix = matrix_of(&[&[1, 2], &[3, 4], &[5, 6]]);
    matrix.swap_rows(0, 2);
    assert_eq!(rows_of(&matrix), vec![vec![5, 6], vec![3, 4], vec![1, 2]]);
}

#[test]
fn rows_columns_and_fill() {
    let mut matrix = matrix_of(&[&[1, 2], &[3, 4]]);
    assert_eq!(matrix.row(1).0, vec![3, 4]);
    assert_eq!(matrix.col(1).0, vec![2, 4]);
    matrix.fill(7);
    assert_eq!(rows_of(&matrix), vec![vec![7, 7], vec![7, 7]]);
    assert_eq!(MatrixRepr::get_data(&matrix), &vec![7, 7, 7, 7]);
}

#[test]
fn identity_by_fill_fn() {
    let mut square = SquareMatrix::<i64>::new(3);
    square.fill_fn(|i, j| if i == j { 1 } else { 0 });
    assert_eq!(square.get_main_diagonal(), vec![1, 1, 1]);
    assert_eq!(square.get(0, 1), 0);
    assert_eq!(square.det(), 1);
}

#[test]
fn square_round_trip() {
    let matrix = matrix_of(&[&[1, 2, 3], &[4, 5, 6], &[7, 8, 10]]);
    let square = SquareMatrix::try_from_matrix_ref(&matrix).unwrap();
    assert_eq!(square.get_size(), 3);
    let back = square.into_matrix();
    assert_eq!(back.get_dim(), Dim::new(3, 3));
    assert_eq!(rows_of(&back), rows_of(&matrix));
}

#[test]
fn square_from_non_square_fails() {
    let matrix = matrix_of(&[&[1, 2, 3], &[4, 5, 6]]);
    assert_eq!(
        SquareMatrix::try_from_matrix_ref(&matrix).err(),
        Some(Error::ShapeMismatch)
    );
    assert!(SquareMatrix::try_from_matrix(matrix).is_err());
}

#[test]
fn square_multiply() {
    let mut a = SquareMatrix::<i64>::new(2);
    a.fill_fn(|i, j| (i * 2 + j) as i64 + 1);
    let mut b = SquareMatrix::<i64>::new(2);
    b.fill(1);
    let product = a.multiply(&b).unwrap();
    assert_eq!(rows_of(&product), vec![vec![3, 3], vec![7, 7]]);
    assert!(a.multiply(&SquareMatrix::new(3)).is_none());
}

#[test]
fn random_fill_stays_in_range() {
    let mut matrix = Matrix::<i64>::new(Dim::new(10, 10));
    matrix.fill_random_in_range(5, 7);
    let cells: Vec<i64> = rows_of(&matrix).into_iter().flatten().collect();
    assert!(cells.iter().all(|v| *v == 5 || *v == 6));
    assert!(cells.contains(&5) && cells.contains(&6));

    let mut square = SquareMatrix::<i64>::new(4);
    square.fill_random_in_range(200, 201);
    assert_eq!(square.get_main_diagonal(), vec![200, 200, 200, 200]);
}

#[test]
fn integer_item_arithmetic() {
    assert_eq!(<i64 as MatrixItem>::div(7, -2), -3);
    assert_eq!(<i64 as MatrixItem>::div(i64::MIN, -1), i64::MIN);
    assert_eq!(<i64 as MatrixItem>::add(i64::MAX, 1), i64::MIN);
    assert_eq!(<i64 as MatrixItem>::neg(5), -5);
    assert!(<i64 as MatrixItem>::zero().is_zero());
    assert_eq!(<i64 as MatrixItem>::mul(6, 7), 42);
    assert_eq!(<i64 as MatrixItem>::from_byte(255), 255);
}

#[test]
fn i32_text_lengths() {
    assert_eq!(get_i32_len(0), 1);
    assert_eq!(get_i32_len(9), 1);
    assert_eq!(get_i32_len(10), 2);
    assert_eq!(get_i32_len(-7), 2);
    assert_eq!(get_i32_len(12345), 5);
    assert_eq!(get_i32_len(i32::MAX), 10);
    assert_eq!(get_i32_len(i32::MIN), 11);
}

#[test]
fn print_config_builders() {
    let cfg = PrintConfig::new();
    assert_eq!(cfg.get_precision(), PRECISION);
    assert_eq!(cfg.get_align(), Align::Left);
    let cfg = cfg.align(Align::Center).precision(2);
    assert_eq!(cfg.get_precision(), 2);
    assert_eq!(cfg.get_align(), Align::Center);
    assert_eq!(Error::new(), Error::default());
}
