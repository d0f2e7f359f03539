use vstd::prelude::*;
use crate::decimal::{decimal_digits, push_decimal_digits};

verus! {

/// One of the two operands of a matrix product `A * B`.
#[derive(Clone, Copy, Debug, PartialEq, Eq, Structural)]
pub enum Operand {
    /// The left operand, `A`.
    Left,
    /// The right operand, `B`.
    Right,
}

/// Why an argument was rejected.
#[derive(Clone, Copy, Debug, PartialEq, Eq, Structural)]
pub enum Invalid {
    /// The factorial of a negative number was asked for.
    NegativeFactorial,
    /// The square root of a negative number was asked for.
    NegativeSquareRoot,
    /// One of the two matrices has no rows.
    EmptyMatrix,
    /// A row of the named matrix is not as long as its first row.
    RaggedRows(Operand),
    /// `A` has `cols_a` columns but `B` has `rows_b` rows.
    DimensionMismatch { rows_a: usize, cols_a: usize, rows_b: usize, cols_b: usize },
}

/// The ways in which a routine of this library fails.
#[derive(Clone, Copy, Debug, PartialEq, Eq, Structural)]
pub enum MathError {
    /// An argument lies outside the routine's domain.
    InvalidArgument(Invalid),
    /// The divisor is zero.
    DivisionByZero,
    /// The result does not fit the result type.
    Overflow,
}

impl MathError {
    /// The text of `message`.
    pub open spec fn message_text(self) -> Seq<char> {
        match self {
            MathError::DivisionByZero => "Division by zero"@,
            MathError::Overflow => "Factorial result is too large"@,
            MathError::InvalidArgument(Invalid::NegativeFactorial) => "Factorial is not defined for negative numbers"@,
            MathError::InvalidArgument(Invalid::NegativeSquareRoot) => "Cannot calculate square root of negative number"@,
            MathError::InvalidArgument(Invalid::EmptyMatrix) => "Matrices cannot be empty"@,
            MathError::InvalidArgument(Invalid::RaggedRows(Operand::Left)) => "All rows in matrix A must have the same number of columns"@,
            MathError::InvalidArgument(Invalid::RaggedRows(Operand::Right)) => "All rows in matrix B must have the same number of columns"@,
            MathError::InvalidArgument(
                Invalid::DimensionMismatch { rows_a, cols_a, rows_b, cols_b },
            ) => "Cannot multiply matrices: A is "@ + decimal_digits(rows_a as nat) + "x"@
                + decimal_digits(cols_a as nat) + ", B is "@ + decimal_digits(rows_b as nat) + "x"@
                + decimal_digits(cols_b as nat) + ". Columns of A ("@ + decimal_digits(
                cols_a as nat,
            ) + ") must equal rows of B ("@ + decimal_digits(rows_b as nat) + ")"@,
        }
    }

    /// Describes the failure in words; a dimension mismatch names the
    /// dimensions of both matrices and the two counts that disagree.
    pub fn message(&self) -> (text: String)
        ensures
            text@ == self.message_text(),
    {
        match *self {
            MathError::DivisionByZero => String::from_str("Division by zero"),
            MathError::Overflow => String::from_str("Factorial result is too large"),
            MathError::InvalidArgument(Invalid::NegativeFactorial) => String::from_str(
                "Factorial is not defined for negative numbers",
            ),
            MathError::InvalidArgument(Invalid::NegativeSquareRoot) => String::from_str(
                "Cannot calculate square root of negative number",
            ),
            MathError::InvalidArgument(Invalid::EmptyMatrix) => String::from_str(
                "Matrices cannot be empty",
            ),
            MathError::InvalidArgument(Invalid::RaggedRows(Operand::Left)) => String::from_str(
                "All rows in matrix A must have the same number of columns",
            ),
            MathError::InvalidArgument(Invalid::RaggedRows(Operand::Right)) => String::from_str(
                "All rows in matrix B must have the same number of columns",
            ),
            MathError::InvalidArgument(
                Invalid::DimensionMismatch { rows_a, cols_a, rows_b, cols_b },
            ) => {
                let mut text = String::from_str("Cannot multiply matrices: A is ");
                push_decimal_digits(&mut text, rows_a as u64);
                text.append("x");
                push_decimal_digits(&mut text, cols_a as u64);
                text.append(", B is ");
                push_decimal_digits(&mut text, rows_b as u64);
                text.append("x");
                push_decimal_digits(&mut text, cols_b as u64);
                text.append(". Columns of A (");
                push_decimal_digits(&mut text, cols_a as u64);
                text.append(") must equal rows of B (");
                push_decimal_digits(&mut text, rows_b as u64);
                text.append(")");
                text
            },
        }
    }
}

} // verus!
