//! The ways in which an operation of the library can fail.
use vstd::prelude::*;

verus! {

/// Why an operation failed.
#[derive(Debug, Clone, Copy, PartialEq, Eq, Structural)]
pub enum Error {
    /// The slot asked for is already taken.
    Overwrite,
    /// No free slot is left.
    Overflow,
    /// The slot was refused for a reason other than being taken.
    Rejected,
}

} // verus!
