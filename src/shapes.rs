//! The errors reported when a shape is given a dimension it cannot have.
//! The shapes themselves measure in floating point and live outside this
//! library.

use vstd::prelude::*;
use vstd::string::*;

verus! {

/// Which dimension of a shape was refused by a constructor or a setter.
#[derive(Clone, Copy, Debug, PartialEq, Eq)]
pub enum Error {
    InvalidWidth,
    InvalidHeight,
    InvalidRadius,
}

/// Why a dimension was refused, by kind of value.
#[derive(Debug, Clone, PartialEq, Eq)]
pub enum ShapeError {
    /// The value is below zero.
    NegativeValue,
    /// The value is zero.
    ZeroValue,
    /// The value is not a finite number; the text names it.
    InvalidDimension(String),
}

/// The text shown to a user for `e`.
pub open spec fn shape_error_text(e: ShapeError) -> Seq<char> {
    match e {
        ShapeError::NegativeValue => "negative values are not allowed"@,
        ShapeError::ZeroValue => "zero values are not allowed"@,
        ShapeError::InvalidDimension(what) => "invalid dimension: "@ + what@,
    }
}

impl ShapeError {
    /// A description of the error, fit for direct display.
    pub fn message(&self) -> (r: String)
        ensures
            r@ == shape_error_text(*self),
    {
        match self {
            ShapeError::NegativeValue => String::from_str("negative values are not allowed"),
            ShapeError::ZeroValue => String::from_str("zero values are not allowed"),
            ShapeError::InvalidDimension(what) => {
                let mut r = String::from_str("invalid dimension: ");
                r.append(what.as_str());
                r
            },
        }
    }
}

} // verus!
