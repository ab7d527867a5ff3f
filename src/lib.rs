//! Building blocks of a small linear-programming and linear-system solver: the
//! error taxonomy, typed row and column indices, a windowed dense matrix with its
//! elementary row operations, the rules that pick a solution method from a
//! problem's shape, the two-phase Simplex tableau layout, and the integer lattice
//! sweep of the brute-force method.

pub mod brute;
pub mod error;
pub mod gaussian;
pub mod index;
pub mod matrix;
pub mod problem;
pub mod simplex;

pub use crate::error::{ErrorKind, Result, SolverError};
pub use crate::index::{Col, Row};
pub use crate::matrix::{Matrix, MatrixView};
pub use crate::problem::{ConstraintKind, Method, ObjectiveKind, Variable, VariableKind};
