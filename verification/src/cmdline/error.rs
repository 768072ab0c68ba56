//! The ways in which compiling a command fails.

use vstd::prelude::*;

verus! {

/// Why a command was not compiled, or not accepted.
#[derive(Clone, Copy, Debug, PartialEq, Eq, Structural)]
pub enum FlowError {
    /// A literal does not read as a value of the type its field declares, or
    /// the tokens end where a literal is due.
    InvalidArgument,
    /// A write would end beyond the capacity of a byte buffer.
    OutOfBounds,
    /// A token is not a keyword of the grammar level that reads it.
    UnknownKeyword,
    /// The hardware refused the compiled rule.
    HardwareRejected,
}

impl FlowError {
    /// What went wrong, in a few words.
    pub fn message(&self) -> (r: &'static str)
        ensures
            r@ == match *self {
                FlowError::InvalidArgument => "invalid argument"@,
                FlowError::OutOfBounds => "out of bounds"@,
                FlowError::UnknownKeyword => "unknown keyword"@,
                FlowError::HardwareRejected => "rejected by the hardware"@,
            },
    {
        match self {
            FlowError::InvalidArgument => "invalid argument",
            FlowError::OutOfBounds => "out of bounds",
            FlowError::UnknownKeyword => "unknown keyword",
            FlowError::HardwareRejected => "rejected by the hardware",
        }
    }
}

} // verus!
