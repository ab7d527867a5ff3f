use vstd::prelude::*;

use crate::error::{ErrorKind, Result, SolverError};

verus! {

/// What values a variable may take: any real, or the integers of `[min, max]`.
#[derive(Debug, Copy, Clone, PartialEq, Eq, Structural)]
pub enum VariableKind {
    Continuous,
    Integer(i32, i32),
}

#[derive(Copy, Clone, Debug)]
pub struct Variable {
    index: u32,
    kind: VariableKind,
}

impl Variable {
    pub closed spec fn spec_index(&self) -> u32 {
        self.index
    }

    pub closed spec fn spec_kind(&self) -> VariableKind {
        self.kind
    }

    pub fn new(index: u32, kind: VariableKind) -> (v: Variable)
        ensures
            v.spec_index() == index,
            v.spec_kind() == kind,
    {
        Variable { index, kind }
    }

    pub fn index(&self) -> (i: u32)
        ensures
            i == self.spec_index(),
    {
        self.index
    }

    pub fn kind(&self) -> (k: VariableKind)
        ensures
            k == self.spec_kind(),
    {
        self.kind
    }
}

#[derive(Debug, Clone, Copy, PartialEq, Eq, Structural)]
pub enum ObjectiveKind {
    Minimize,
    Maximize,
}

#[derive(Debug, Clone, Copy, PartialEq, Eq, Structural)]
pub enum ConstraintKind {
    GreaterThanOrEqualTo,
    EqualTo,
    LessThanOrEqualTo,
}

/// Checks that a constraint gives one coefficient for each declared variable.
pub fn check_constraint_width(num_variables: usize, num_coeffs: usize) -> (r: Result<()>)
    ensures
        num_coeffs == num_variables <==> r is Ok,
        num_coeffs != num_variables ==> (r matches Err(e) && e.spec_kind()
            == ErrorKind::InvalidConstraint),
{
    if num_coeffs != num_variables {
        return SolverError::invalid_constraint(
            "The constraint's coefficient count differs from the number of variables.",
        );
    }
    Ok(())
}

/// The solution method that a problem's shape calls for.
#[derive(Debug, Clone, Copy, PartialEq, Eq, Structural)]
pub enum Method {
    GaussianElimination,
    Simplex,
    BruteForce,
}

/// Whether some variable is integer-valued.
pub open spec fn has_integer(vars: Seq<Variable>) -> bool {
    exists|i: int| 0 <= i < vars.len() && (#[trigger] vars[i]).spec_kind() is Integer
}

/// The method for a problem with these variables and, if set, this objective
/// direction; an integer problem without an objective has none.
pub open spec fn method_for(vars: Seq<Variable>, objective: Option<ObjectiveKind>) -> Option<Method> {
    match (objective, has_integer(vars)) {
        (None, false) => Some(Method::GaussianElimination),
        (None, true) => None,
        (Some(_), false) => Some(Method::Simplex),
        (Some(_), true) => Some(Method::BruteForce),
    }
}

/// Picks the solution method from the problem's shape: Gaussian elimination for a
/// system without objective, Simplex for a continuous program, brute force for one
/// with integer variables.
pub fn select_method(vars: &[Variable], objective: Option<ObjectiveKind>) -> (r: Result<Method>)
    ensures
        method_for(vars@, objective) matches Some(m) ==> r == Ok::<Method, SolverError>(m),
        method_for(vars@, objective) is None ==> (r matches Err(e) && e.spec_kind()
            == ErrorKind::UnableToSolve),
{
    let mut integer = false;
    let mut i: usize = 0;
    while i < vars.len()
        invariant
            0 <= i <= vars@.len(),
            integer == exists|k: int| 0 <= k < i && (#[trigger] vars@[k]).spec_kind() is Integer,
        decreases vars@.len() - i,
    {
        if let VariableKind::Integer(..) = vars[i].kind() {
            integer = true;
        }
        i = i + 1;
    }
    match objective {
        None => {
            if integer {
                SolverError::unable_to_solve(
                    "A mixed integer or integer problem must specify an objective.",
                )
            } else {
                Ok(Method::GaussianElimination)
            }
        },
        Some(_) => {
            if integer {
                Ok(Method::BruteForce)
            } else {
                Ok(Method::Simplex)
            }
        },
    }
}

} // verus!
