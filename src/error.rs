//! The error kinds reported by checked arithmetic.

use vstd::prelude::*;
use vstd::string::*;

verus! {

/// Why an arithmetic operation was refused.
#[derive(Debug, Clone, PartialEq, Eq)]
pub enum CalculatorError {
    /// The exact result is above the largest `i64`.
    Overflow,
    /// The exact result is below the smallest `i64`.
    Underflow,
    /// The divisor or modulus is zero.
    DivisionByZero,
    /// A precondition of the operation does not hold; the text says which.
    Invalid(String),
}

/// Whether `e` is `Invalid` with the reason `reason`.
pub open spec fn is_invalid_for(e: CalculatorError, reason: Seq<char>) -> bool {
    match e {
        CalculatorError::Invalid(r) => r@ == reason,
        _ => false,
    }
}

/// The text shown to a user for `e`.
pub open spec fn error_text(e: CalculatorError) -> Seq<char> {
    match e {
        CalculatorError::Overflow => "arithmetic overflow"@,
        CalculatorError::Underflow => "arithmetic underflow"@,
        CalculatorError::DivisionByZero => "division by zero"@,
        CalculatorError::Invalid(reason) => "invalid operation: "@ + reason@,
    }
}

impl CalculatorError {
    /// A description of the error, fit for direct display.
    pub fn message(&self) -> (r: String)
        ensures
            r@ == error_text(*self),
    {
        match self {
            CalculatorError::Overflow => String::from_str("arithmetic overflow"),
            CalculatorError::Underflow => String::from_str("arithmetic underflow"),
            CalculatorError::DivisionByZero => String::from_str("division by zero"),
            CalculatorError::Invalid(reason) => {
                let mut r = String::from_str("invalid operation: ");
                r.append(reason.as_str());
                r
            },
        }
    }
}

} // verus!
