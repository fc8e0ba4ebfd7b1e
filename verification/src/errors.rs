//! Bounds-violation errors for the password record.

use vstd::prelude::*;

verus! {

/// Returned when a bit index at or past the 144-bit capacity is addressed.
#[derive(Debug, Clone, Copy, PartialEq, Eq, Structural)]
pub struct BitOutOfBoundsError;

/// Returned when a byte index at or past the 18-byte capacity is addressed.
#[derive(Debug, Clone, Copy, PartialEq, Eq, Structural)]
pub struct ByteOutOfBoundsError;

impl BitOutOfBoundsError {
    /// A human-readable description of the error.
    pub fn message(&self) -> (m: &'static str)
        ensures
            m@ == "Bit index is out of bounds"@,
    {
        "Bit index is out of bounds"
    }
}

impl ByteOutOfBoundsError {
    /// A human-readable description of the error.
    pub fn message(&self) -> (m: &'static str)
        ensures
            m@ == "Byte index is out of bounds"@,
    {
        "Byte index is out of bounds"
    }
}

} // verus!
