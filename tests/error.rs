use rusolve::{ErrorKind, Result, SolverError};

#[test]
fn error_constructors_set_kind_and_message() {
    let cases: Vec<(Result<()>, ErrorKind)> = vec![
        (SolverError::invalid_constraint("a"), ErrorKind::InvalidConstraint),
        (SolverError::invalid_objective("a"), ErrorKind::InvalidObjective),
        (SolverError::infeasible("a"), ErrorKind::Infeasible),
        (SolverError::underspecified("a"), ErrorKind::Underspecified),
        (SolverError::unable_to_solve("a"), ErrorKind::UnableToSolve),
        (SolverError::invalid_solution(String::from("a")), ErrorKind::InvalidSolution),
    ];
    for (result, kind) in cases {
        let error = result.unwrap_err();
        assert_eq!(error.kind(), kind);
        assert_eq!(error.message(), "a");
    }
}

#[test]
fn error_new_with_formatted_message() {
    let result: Result<u32> = SolverError::new(ErrorKind::Infeasible, format!("no {} here", 3));
    let error = result.unwrap_err();
    assert_eq!(error.kind(), ErrorKind::Infeasible);
    assert_eq!(error.message(), "no 3 here");
}
