//! The ways in which a scan can fail.

use vstd::prelude::*;

verus! {

/// Why a run of numeric characters is no integer literal.
///
/// A failed scan leaves the scanner behind the offending run, so the caller
/// may go on scanning.
#[derive(Clone, Copy, PartialEq, Eq, Debug, Structural)]
pub enum LexError {
    /// The run holds no character. No scan fails so, as a number starts
    /// with a numeric character; this is for a run that is read by itself.
    Empty,
    /// The run holds a character that is no decimal digit.
    InvalidDigit,
    /// The run is made of decimal digits, and its value exceeds `i32::MAX`.
    IntegerOverflow,
}

} // verus!
