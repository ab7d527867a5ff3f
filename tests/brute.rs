use rusolve::brute::{first_point, integer_bounds, next_point};
use rusolve::VariableKind;

#[test]
fn bounds_of_kinds() {
    assert_eq!(integer_bounds(VariableKind::Integer(-3, 4)), (-3, 4));
    assert_eq!(integer_bounds(VariableKind::Continuous), (0, 0));
}

#[test]
fn sweep_visits_box_in_order() {
    let bounds = vec![(0, 1), (-1, 1)];
    let mut point = first_point(&bounds).unwrap();
    let mut seen = vec![point.clone()];
    while next_point(&mut point, &bounds) {
        seen.push(point.clone());
    }
    assert_eq!(
        seen,
        vec![vec![0, -1], vec![0, 0], vec![0, 1], vec![1, -1], vec![1, 0], vec![1, 1]]
    );
    // the last point stays where it is
    assert_eq!(point, vec![1, 1]);
}

#[test]
fn sweep_of_five_booleans() {
    let bounds = vec![(0, 1); 5];
    let mut point = first_point(&bounds).unwrap();
    let mut count = 1;
    while next_point(&mut point, &bounds) {
        count += 1;
    }
    assert_eq!(count, 32);
}

#[test]
fn sweep_single_point() {
    let bounds = vec![(2, 2), (0, 0)];
    let mut point = first_point(&bounds).unwrap();
    assert_eq!(point, vec![2, 0]);
    assert!(!next_point(&mut point, &bounds));
}

#[test]
fn sweep_empty_range() {
    assert!(first_point(&[(0, 1), (3, 2)]).is_none());
}
