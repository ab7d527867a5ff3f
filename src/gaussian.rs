use vstd::prelude::*;

use crate::error::{ErrorKind, Result, SolverError};
use crate::problem::ConstraintKind;

verus! {

pub open spec fn all_equalities(kinds: Seq<ConstraintKind>) -> bool {
    forall|i: int| 0 <= i < kinds.len() ==> #[trigger] kinds[i] == ConstraintKind::EqualTo
}

/// The error, if any, with which Gaussian elimination turns down a problem of this
/// shape: it takes no objective, and exactly one equality per variable.
pub open spec fn shape_error(has_objective: bool, num_variables: nat, kinds: Seq<ConstraintKind>) -> Option<ErrorKind> {
    if has_objective {
        Some(ErrorKind::InvalidObjective)
    } else if kinds.len() != num_variables || !all_equalities(kinds) {
        Some(ErrorKind::InvalidConstraint)
    } else {
        None
    }
}

/// Checks that a problem suits Gaussian elimination: no objective, as many
/// constraints as variables, and every constraint an equality.
pub fn check_shape(has_objective: bool, num_variables: usize, kinds: &[ConstraintKind]) -> (r: Result<()>)
    ensures
        shape_error(has_objective, num_variables as nat, kinds@) matches Some(k) ==> (r matches Err(
            e,
        ) && e.spec_kind() == k),
        shape_error(has_objective, num_variables as nat, kinds@) is None ==> r is Ok,
{
    if has_objective {
        return SolverError::invalid_objective(
            "Gaussian elimination does not accept an objective function.",
        );
    }
    if kinds.len() != num_variables {
        return SolverError::invalid_constraint(
            "Number of constraints must equal number of variables for gaussian elimination.",
        );
    }
    let mut i: usize = 0;
    while i < kinds.len()
        invariant
            0 <= i <= kinds@.len(),
            !has_objective,
            kinds@.len() == num_variables,
            forall|k: int| 0 <= k < i ==> #[trigger] kinds@[k] == ConstraintKind::EqualTo,
        decreases kinds@.len() - i,
    {
        if kinds[i] != ConstraintKind::EqualTo {
            assert(kinds@[i as int] != ConstraintKind::EqualTo);
            assert(!all_equalities(kinds@));
            return SolverError::invalid_constraint(
                "Gaussian elimination only accepts equality constraints.",
            );
        }
        i = i + 1;
    }
    Ok(())
}

} // verus!
