//! What a grid refuses.

use crate::decimal::{decimal_text, push_decimal};
use vstd::prelude::*;
use vstd::string::*;

verus! {

/// Why a grid could not be built or a cell buffer was not taken over.
#[derive(Debug, Clone, Copy, PartialEq, Eq)]
pub enum GridError {
    /// The width or the height asked for is zero.
    ZeroDimension,
    /// The buffer does not hold width times height values; `expected` is
    /// that product.
    SizeMismatch { expected: usize },
    /// The buffer holds a value other than 0 and 1; `value` is the first
    /// such value.
    InvalidCell { value: u8 },
}

impl GridError {
    /// The sentence that tells a person what was refused.  It names the
    /// length expected of a buffer of the wrong length, and the value found
    /// where only 0 and 1 may stand.
    pub open spec fn message_text(self) -> Seq<char> {
        match self {
            GridError::ZeroDimension => "Width and/or height of rectangular grid cannot be zero."@,
            GridError::SizeMismatch { expected } =>
                "The size of the input state is not the same as the width times height: "@
                + decimal_text(expected as nat) + "."@,
            GridError::InvalidCell { value } => "Valid values can only be 0 or 1. Got value of "@
                + decimal_text(value as nat) + "."@,
        }
    }

    /// The sentence of [`GridError::message_text`] as a string.
    pub fn message(&self) -> (text: String)
        ensures
            text@ == self.message_text(),
    {
        let mut out: String = String::new();
        match self {
            GridError::ZeroDimension => {
                out.append("Width and/or height of rectangular grid cannot be zero.");
            },
            GridError::SizeMismatch { expected } => {
                out.append(
                    "The size of the input state is not the same as the width times height: ",
                );
                push_decimal(&mut out, *expected as u64);
                out.append(".");
            },
            GridError::InvalidCell { value } => {
                out.append("Valid values can only be 0 or 1. Got value of ");
                push_decimal(&mut out, *value as u64);
                out.append(".");
            },
        }
        assert(out@ =~= self.message_text());
        out
    }
}

} // verus!
