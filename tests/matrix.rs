use rusolve::{Col, Matrix, Row};

fn grid(width: usize, height: usize) -> Matrix<i64> {
    let coeffs: Vec<i64> = (0..(width * height) as i64).collect();
    Matrix::new(width, height, coeffs)
}

#[test]
fn matrix_new_full_window() {
    let m = grid(4, 3);
    assert_eq!(m.width(), 4);
    assert_eq!(m.height(), 3);
    assert_eq!(m.first_row().index(), 0);
    assert_eq!(m.first_col().index(), 0);
    assert_eq!(m.last_row().index(), 2);
    assert_eq!(m.last_col().index(), 3);
    assert_eq!(m.value(Row::new(2), Col::new(1)), 9);
}

#[test]
fn matrix_sub_narrows_upper_left() {
    let mut m = grid(5, 4);
    m.sub(1, 1);
    assert_eq!(m.width(), 4);
    assert_eq!(m.height(), 3);
    assert_eq!(m.first_row().index(), 1);
    assert_eq!(m.first_col().index(), 1);
    assert_eq!(m.last_row().index(), 3);
    assert_eq!(m.last_col().index(), 4);
    let rows: Vec<usize> = m.rows().iter().map(|r| r.index()).collect();
    assert_eq!(rows, vec![1, 2, 3]);
    let cols: Vec<usize> = m.cols().iter().map(|c| c.index()).collect();
    assert_eq!(cols, vec![1, 2, 3, 4]);
    // storage keeps the full width
    assert_eq!(m.value(Row::new(1), Col::new(1)), 6);
}

#[test]
fn matrix_ranges() {
    let m = grid(5, 4);
    let cols: Vec<usize> = m.cols_range(Col::new(1), Col::new(3)).iter().map(|c| c.index()).collect();
    assert_eq!(cols, vec![1, 2]);
    assert!(m.cols_range(Col::new(3), Col::new(1)).is_empty());
    let cols: Vec<usize> = m.cols_from(Col::new(3)).iter().map(|c| c.index()).collect();
    assert_eq!(cols, vec![3, 4]);
    let rows: Vec<usize> = m.rows_range(Col::new(0), Col::new(2)).iter().map(|r| r.index()).collect();
    assert_eq!(rows, vec![0, 1]);
    let rows: Vec<usize> = m.rows_from(Row::new(2)).iter().map(|r| r.index()).collect();
    assert_eq!(rows, vec![2, 3]);
    let back: Vec<usize> = m.rows().into_iter().rev().map(|r| r.index()).collect();
    assert_eq!(back, vec![3, 2, 1, 0]);
}

#[test]
fn matrix_set_value() {
    let mut m = grid(3, 3);
    m.set_value(Row::new(1), Col::new(2), 42);
    assert_eq!(m.value(Row::new(1), Col::new(2)), 42);
    assert_eq!(m.value(Row::new(1), Col::new(1)), 4);
    assert_eq!(m.value(Row::new(2), Col::new(2)), 8);
}

#[test]
fn matrix_set_value_raw_outside_window() {
    let mut m = grid(3, 3);
    m.sub(1, 1);
    m.set_value_raw(0, 0, -7);
    m.sub(0, 0);
    assert_eq!(m.value(Row::new(0), Col::new(0)), -7);
}

#[test]
fn matrix_swap_rows_in_window() {
    let mut m = grid(4, 3);
    m.sub(1, 0);
    m.swap_rows(Row::new(0), Row::new(2));
    m.sub(0, 0);
    // column 0 lies outside the window and stays
    assert_eq!(m.value(Row::new(0), Col::new(0)), 0);
    assert_eq!(m.value(Row::new(2), Col::new(0)), 8);
    assert_eq!(m.value(Row::new(0), Col::new(1)), 9);
    assert_eq!(m.value(Row::new(2), Col::new(3)), 3);
    assert_eq!(m.value(Row::new(1), Col::new(2)), 6);
}

#[test]
fn matrix_map_row_in_window() {
    let mut m = grid(3, 3);
    m.sub(1, 0);
    m.map_row(Row::new(1), |v| v * 10);
    m.sub(0, 0);
    assert_eq!(m.value(Row::new(1), Col::new(0)), 3);
    assert_eq!(m.value(Row::new(1), Col::new(1)), 40);
    assert_eq!(m.value(Row::new(1), Col::new(2)), 50);
    assert_eq!(m.value(Row::new(0), Col::new(1)), 1);
}

#[test]
fn matrix_combine_rows_float() {
    let mut m = Matrix::new(3, 3, vec![1.0, 2.0, 3.0, 4.0, 5.0, 6.0, 7.0, 8.0, 9.0]);
    m.combine_rows(Row::new(0), Row::new(2), |s, d| s * -2.0 + d);
    assert_eq!(m.value(Row::new(2), Col::new(0)), 5.0);
    assert_eq!(m.value(Row::new(2), Col::new(1)), 4.0);
    assert_eq!(m.value(Row::new(2), Col::new(2)), 3.0);
    assert_eq!(m.value(Row::new(0), Col::new(2)), 3.0);
}

#[test]
fn matrix_combine_row_with_itself() {
    let mut m = grid(3, 3);
    m.combine_rows(Row::new(1), Row::new(1), |s, d| s + d);
    assert_eq!(m.value(Row::new(1), Col::new(0)), 6);
    assert_eq!(m.value(Row::new(1), Col::new(2)), 10);
}

#[test]
fn matrix_index_validity() {
    let m = grid(4, 3);
    assert!(Row::new(2).is_valid(&m));
    assert!(!Row::new(3).is_valid(&m));
    assert!(Col::new(3).is_valid(&m));
    assert!(!Col::new(4).is_valid(&m));
}

#[test]
fn matrix_zero_row_exact() {
    let m = Matrix::new(3, 3, vec![1.0, 2.0, 3.0, 0.0, 0.0, 0.0, 4.0, 0.0, 5.0]);
    assert!(m.has_zero_row(|v| v == 0.0));
    let m = Matrix::new(3, 3, vec![1.0, 2.0, 3.0, 0.0, 1e-300, 0.0, 4.0, 0.0, 5.0]);
    assert!(!m.has_zero_row(|v| v == 0.0));
}

#[test]
fn matrix_zero_row_in_window_only() {
    // row 0 is all zero but lies outside the window; row 2 is zero only outside it
    let mut m = Matrix::new(3, 3, vec![0, 0, 0, 1, 2, 3, 5, 0, 0]);
    assert!(m.has_zero_row(|v| v == 0));
    m.sub(0, 1);
    assert!(!m.has_zero_row(|v| v == 0));
    m.sub(1, 1);
    assert!(m.has_zero_row(|v| v == 0));
}
