use vstd::prelude::*;

verus! {

pub type Result<T> = std::result::Result<T, SolverError>;

#[derive(Debug, Clone, Copy, PartialEq, Eq, Structural)]
pub enum ErrorKind {
    InvalidConstraint,
    InvalidObjective,
    Infeasible,
    Underspecified,
    UnableToSolve,
    InvalidSolution,
}

#[derive(Debug, Clone)]
pub struct SolverError {
    message: String,
    kind: ErrorKind,
}

impl SolverError {
    pub closed spec fn spec_kind(&self) -> ErrorKind {
        self.kind
    }

    pub closed spec fn spec_message(&self) -> String {
        self.message
    }

    pub fn new<T, M: Into<String>>(kind: ErrorKind, message: M) -> (r: Result<T>)
        ensures
            r matches Err(e) && e.spec_kind() == kind
                && call_ensures(<M as Into<String>>::into, (message,), e.spec_message()),
    {
        let message: String = message.into();
        Err(SolverError { message, kind })
    }

    pub fn invalid_constraint<T, M: Into<String>>(message: M) -> (r: Result<T>)
        ensures
            r matches Err(e) && e.spec_kind() == ErrorKind::InvalidConstraint
                && call_ensures(<M as Into<String>>::into, (message,), e.spec_message()),
    {
        SolverError::new(ErrorKind::InvalidConstraint, message)
    }

    pub fn invalid_objective<T, M: Into<String>>(message: M) -> (r: Result<T>)
        ensures
            r matches Err(e) && e.spec_kind() == ErrorKind::InvalidObjective
                && call_ensures(<M as Into<String>>::into, (message,), e.spec_message()),
    {
        SolverError::new(ErrorKind::InvalidObjective, message)
    }

    pub fn infeasible<T, M: Into<String>>(message: M) -> (r: Result<T>)
        ensures
            r matches Err(e) && e.spec_kind() == ErrorKind::Infeasible
                && call_ensures(<M as Into<String>>::into, (message,), e.spec_message()),
    {
        SolverError::new(ErrorKind::Infeasible, message)
    }

    pub fn underspecified<T, M: Into<String>>(message: M) -> (r: Result<T>)
        ensures
            r matches Err(e) && e.spec_kind() == ErrorKind::Underspecified
                && call_ensures(<M as Into<String>>::into, (message,), e.spec_message()),
    {
        SolverError::new(ErrorKind::Underspecified, message)
    }

    pub fn unable_to_solve<T, M: Into<String>>(message: M) -> (r: Result<T>)
        ensures
            r matches Err(e) && e.spec_kind() == ErrorKind::UnableToSolve
                && call_ensures(<M as Into<String>>::into, (message,), e.spec_message()),
    {
        SolverError::new(ErrorKind::UnableToSolve, message)
    }

    pub fn invalid_solution<T, M: Into<String>>(message: M) -> (r: Result<T>)
        ensures
            r matches Err(e) && e.spec_kind() == ErrorKind::InvalidSolution
                && call_ensures(<M as Into<String>>::into, (message,), e.spec_message()),
    {
        SolverError::new(ErrorKind::InvalidSolution, message)
    }

    pub fn kind(&self) -> (k: ErrorKind)
        ensures
            k == self.spec_kind(),
    {
        self.kind
    }

    pub fn message(&self) -> (m: &str)
        ensures
            m@ == self.spec_message()@,
    {
        self.message.as_str()
    }
}

} // verus!
