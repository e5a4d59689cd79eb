//! The ways in which an operation of this crate can fail.

use vstd::prelude::*;

verus! {

/// Where and why a text could not be read as a number.
#[derive(Debug, Copy, Clone, PartialEq, Eq, Hash, Structural)]
pub struct ParseTernaryError {
    /// Index at which reading stopped, counted in characters from the
    /// start of the text.
    pub position: usize,
    /// The character found there, which is no digit of the notation read;
    /// `None` where the text ended before any digit was found.
    pub found: Option<char>,
}

/// Why an operation on digits or numbers failed.
///
/// Every failure ends the one operation that met it; nothing is clamped,
/// wrapped or replaced by a default.
#[derive(Debug, Copy, Clone, PartialEq, Eq, Hash, Structural)]
pub enum TernaryError {
    /// A character or an integer that stands for no digit was given where
    /// one digit was expected.
    InvalidInput,
    /// A text that was to be read as a number is malformed.
    Parse(ParseTernaryError),
    /// The divisor is zero.
    DivideByZero,
    /// A value does not fit the 64-bit signed integer, or the number of
    /// digits, that has to hold it.
    Overflow,
    /// A number has more significant digits than the fixed width it was to
    /// be stored in.
    LengthExceeded,
}

} // verus!
