//! Small numeric routines with proved contracts.
//!
//! `factorial` and `sum_as_string` work on machine integers and are specified
//! over the mathematical integers. `calculate_pi`, `divide`, `safe_sqrt` and
//! `matrix_multiply` work in any scalar type: the caller hands in the
//! primitive operations of the scalar, and each contract states which
//! operations are applied, to which arguments and in which order. The
//! modules `matrix` and `series` hold the laws that follow for arithmetic
//! with the usual algebraic properties.

pub mod arithmetic;
pub mod decimal;
pub mod error;
pub mod factorial;
pub mod matrix;
pub mod scalar;
pub mod series;

pub use decimal::sum_as_string;
pub use error::{Invalid, MathError, Operand};
pub use factorial::factorial;
pub use matrix::matrix_multiply;
pub use scalar::{divide, safe_sqrt};
pub use series::{calculate_pi, Term};
