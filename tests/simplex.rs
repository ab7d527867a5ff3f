use rusolve::simplex::{
    basic_row, count_artificial, enter_phase_two, read_solution, slack_entry, TableauLayout,
};
use rusolve::{Col, ConstraintKind, Matrix, Row};

#[test]
fn tableau_layout_positions() {
    let layout = TableauLayout::new(3, 2);
    assert_eq!(layout.width(), 8);
    assert_eq!(layout.height(), 4);
    assert_eq!(layout.cell_count(), 32);
    assert_eq!(layout.variable_col(0), 2);
    assert_eq!(layout.variable_col(2), 4);
    assert_eq!(layout.slack_col(0), 5);
    assert_eq!(layout.slack_col(1), 6);
    assert_eq!(layout.rhs_col(), 7);
    assert_eq!(layout.constraint_row(1), 3);
}

#[test]
fn slack_entries_by_kind() {
    assert_eq!(slack_entry(ConstraintKind::LessThanOrEqualTo), (1, false));
    assert_eq!(slack_entry(ConstraintKind::GreaterThanOrEqualTo), (-1, false));
    assert_eq!(slack_entry(ConstraintKind::EqualTo), (1, true));
}

#[test]
fn artificial_count() {
    let kinds = [
        ConstraintKind::EqualTo,
        ConstraintKind::LessThanOrEqualTo,
        ConstraintKind::EqualTo,
        ConstraintKind::GreaterThanOrEqualTo,
    ];
    assert_eq!(count_artificial(&[]), 0);
    assert_eq!(count_artificial(&kinds), 2);
    assert_eq!(count_artificial(&[ConstraintKind::LessThanOrEqualTo]), 0);
}

#[test]
fn basic_row_unique() {
    assert_eq!(basic_row(&[false, false, true, false]), Some(2));
    assert_eq!(basic_row(&[true]), Some(0));
}

#[test]
fn basic_row_none() {
    assert_eq!(basic_row(&[]), None);
    assert_eq!(basic_row(&[false, false]), None);
    assert_eq!(basic_row(&[true, false, true]), None);
    assert_eq!(basic_row(&[true, true, true]), None);
}

#[test]
fn phase_two_clears_artificial_columns() {
    let coeffs: Vec<i64> = (1..=24).collect();
    let mut m = Matrix::new(6, 4, coeffs);
    enter_phase_two(&mut m, 2, 0);
    assert_eq!(m.first_row().index(), 1);
    assert_eq!(m.first_col().index(), 1);
    assert_eq!(m.width(), 5);
    assert_eq!(m.height(), 3);
    for r in 1..4 {
        assert_eq!(m.value(Row::new(r), Col::new(3)), 0);
        assert_eq!(m.value(Row::new(r), Col::new(4)), 0);
        assert_eq!(m.value(Row::new(r), Col::new(5)), (r * 6 + 6) as i64);
        assert_eq!(m.value(Row::new(r), Col::new(2)), (r * 6 + 3) as i64);
    }
    m.sub(0, 0);
    // the Phase-I row keeps its cells
    assert_eq!(m.value(Row::new(0), Col::new(3)), 4);
    assert_eq!(m.value(Row::new(0), Col::new(4)), 5);
}

#[test]
fn phase_two_without_artificials() {
    let mut m = Matrix::new(3, 3, vec![1, 2, 3, 4, 5, 6, 7, 8, 9]);
    enter_phase_two(&mut m, 0, 0);
    assert_eq!(m.value(Row::new(1), Col::new(1)), 5);
    assert_eq!(m.value(Row::new(2), Col::new(2)), 9);
}

#[test]
fn read_solution_from_basis() {
    // columns 1 and 2 are basic (rows 2 and 1), column 3 holds two non-zero entries
    let m = Matrix::new(
        5,
        3,
        vec![
            1.0, 0.0, 0.0, 2.0, 9.0, //
            0.0, 0.0, 1.0, 3.0, 4.0, //
            0.0, 1.0, 0.0, 0.0, 6.0,
        ],
    );
    let (objective, values) = read_solution(&m, 3, |v| v != 0.0, 0.0);
    assert_eq!(objective, 9.0);
    assert_eq!(values, vec![6.0, 4.0, 0.0]);
}

#[test]
fn read_solution_in_narrowed_window() {
    let mut m = Matrix::new(
        4,
        3,
        vec![
            7.0, 1.0, 1.0, 8.0, //
            0.0, 5.0, 0.0, 2.0, //
            0.0, 0.0, 1.0, 3.0,
        ],
    );
    m.sub(1, 1);
    let (objective, values) = read_solution(&m, 1, |v| v != 0.0, 0.0);
    assert_eq!(objective, 2.0);
    assert_eq!(values, vec![3.0]);
}
