//! Why an augmentation can be refused.

use vstd::prelude::*;

verus! {

/// The reasons for which an augmentation returns nothing.
#[derive(Clone, Copy, Debug, PartialEq, Eq, Structural)]
pub enum AugmentError {
    /// A numeric parameter lies outside the values the augmentation accepts.
    InvalidParameter,
    /// Two inputs that must agree in size do not.
    ShapeMismatch,
}

impl AugmentError {
    /// A short description that names the kind of fault.
    pub fn message(&self) -> (text: &'static str)
        ensures
            text@ == (match *self {
                AugmentError::InvalidParameter => "invalid parameter"@,
                AugmentError::ShapeMismatch => "shape mismatch"@,
            }),
    {
        match self {
            AugmentError::InvalidParameter => "invalid parameter",
            AugmentError::ShapeMismatch => "shape mismatch",
        }
    }
}

} // verus!
