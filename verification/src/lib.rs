//! Balanced ternary numbers: digits drawn from {-1, 0, +1}, their operation
//! tables, variable-length and fixed-width digit sequences, and conversions
//! to and from 64-bit integers and text.
//!
//! - [`Digit`] is one digit, with the tables of all operations on digits.
//! - [`DigitOperate`] lifts an operation on digits to a sequence of digits.
//! - [`Ternary`] is a number of any length, [`Tryte`] one of a fixed length.
//! - [`TritsChunk`], [`DataTernary`] and [`Big`] store numbers compactly.
//!
//! The module [`model`] holds the mathematical functions that the contracts
//! speak of, [`lemmas`] the facts proved about them, and [`laws`] what
//! follows for the library as a whole.

pub mod concepts;
pub mod conversions;
pub mod digit;
pub mod error;
pub mod laws;
pub mod lemmas;
pub mod model;
pub mod operations;
pub mod order;
pub mod store;
pub mod ternary;
pub mod text;
pub mod tryte;

pub use crate::concepts::DigitOperate;
pub use crate::digit::Digit;
pub use crate::error::{ParseTernaryError, TernaryError};
pub use crate::store::{Big, DataTernary, TritsChunk};
pub use crate::ternary::Ternary;
pub use crate::tryte::Tryte;

use crate::digit::{digit_of_char, is_digit_char};
use crate::model::{
    chunked_len, digit_text_failure, digits_of_text, is_digit_text, padded, significant,
    significant_len,
};
use vstd::prelude::*;

verus! {

/// The digit that the character `from` stands for.
///
/// Fails with `InvalidInput` on every character but `-`, `0` and `+`.
pub fn trit(from: char) -> (r: Result<Digit, TernaryError>)
    ensures
        is_digit_char(from) ==> r == Ok::<Digit, TernaryError>(digit_of_char(from)),
        !is_digit_char(from) ==> r == Err::<Digit, TernaryError>(TernaryError::InvalidInput),
{
    Digit::from_char(from)
}

/// The number that the text `from` writes with `-`, `0` and `+`, the most
/// significant digit first.
///
/// Fails on the first character that stands for no digit.
pub fn ter(from: &str) -> (r: Result<Ternary, ParseTernaryError>)
    ensures
        r.is_ok() == is_digit_text(from@),
        match r {
            Ok(t) => t@ == digits_of_text(from@),
            Err(e) => digit_text_failure(from@, e),
        },
{
    Ternary::parse(from)
}

/// The tryte of six digits that the text `from` writes.
///
/// Fails with `Parse` on the first character that stands for no digit, and
/// else with `LengthExceeded` exactly when the text has more than six
/// significant digits.
pub fn tryte(from: &str) -> (r: Result<Tryte<6>, TernaryError>)
    ensures
        r.is_ok() == (is_digit_text(from@) && significant_len(digits_of_text(from@)) <= 6),
        match r {
            Ok(t) => t@ == padded(significant(digits_of_text(from@)), 6),
            Err(TernaryError::Parse(e)) => digit_text_failure(from@, e),
            Err(e) => e == TernaryError::LengthExceeded && is_digit_text(from@),
        },
{
    match Ternary::parse(from) {
        Ok(t) => Tryte::from_ternary(&t),
        Err(e) => Err(TernaryError::Parse(e)),
    }
}

/// The stored form of the number that the text `from` writes: its digits
/// with zeros added on the left up to the next multiple of five above
/// their count.
///
/// Fails on the first character that stands for no digit.
pub fn dter(from: &str) -> (r: Result<DataTernary, ParseTernaryError>)
    requires
        from@.len() + 5 <= usize::MAX,
    ensures
        r.is_ok() == is_digit_text(from@),
        match r {
            Ok(d) => d@ == padded(digits_of_text(from@), chunked_len(from@.len())),
            Err(e) => digit_text_failure(from@, e),
        },
{
    match Ternary::parse(from) {
        Ok(t) => Ok(DataTernary::from_ternary(t)),
        Err(e) => Err(e),
    }
}

} // verus!
