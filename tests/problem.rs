use rusolve::problem::{check_constraint_width, select_method};
use rusolve::{ErrorKind, Method, ObjectiveKind, Variable, VariableKind};

fn vars(kinds: &[VariableKind]) -> Vec<Variable> {
    kinds.iter().enumerate().map(|(i, k)| Variable::new(i as u32, *k)).collect()
}

#[test]
fn method_gaussian_without_objective() {
    let v = vars(&[VariableKind::Continuous, VariableKind::Continuous]);
    assert_eq!(select_method(&v, None).unwrap(), Method::GaussianElimination);
}

#[test]
fn method_integer_without_objective_fails() {
    let v = vars(&[VariableKind::Continuous, VariableKind::Integer(0, 1)]);
    assert_eq!(select_method(&v, None).unwrap_err().kind(), ErrorKind::UnableToSolve);
}

#[test]
fn method_simplex_with_objective() {
    let v = vars(&[VariableKind::Continuous; 3]);
    assert_eq!(select_method(&v, Some(ObjectiveKind::Maximize)).unwrap(), Method::Simplex);
}

#[test]
fn method_brute_force_with_integer() {
    let v = vars(&[VariableKind::Integer(0, 1), VariableKind::Continuous]);
    assert_eq!(select_method(&v, Some(ObjectiveKind::Minimize)).unwrap(), Method::BruteForce);
}

#[test]
fn method_empty_problem() {
    assert_eq!(select_method(&[], None).unwrap(), Method::GaussianElimination);
}

#[test]
fn constraint_width_checked() {
    assert!(check_constraint_width(3, 3).is_ok());
    assert_eq!(check_constraint_width(3, 2).unwrap_err().kind(), ErrorKind::InvalidConstraint);
    assert_eq!(check_constraint_width(1, 4).unwrap_err().kind(), ErrorKind::InvalidConstraint);
}

#[test]
fn variable_accessors() {
    let v = Variable::new(7, VariableKind::Integer(-2, 5));
    assert_eq!(v.index(), 7);
    assert_eq!(v.kind(), VariableKind::Integer(-2, 5));
}
