//! Conversions through the traits of the standard library, for those who
//! prefer them to the named functions.

use core::convert::TryFrom;
use core::str::FromStr;
use crate::digit::{digit_of_char, digit_of_int, is_digit_char, Digit};
use crate::error::{ParseTernaryError, TernaryError};
use crate::model::{
    digit_text_failure, digits_of_text, is_digit_text, padded, significant, significant_len, value,
};
use crate::ternary::Ternary;
use crate::tryte::{Tryte, MAX_SIZE};
use vstd::prelude::*;
use vstd::std_specs::convert::{FromSpecImpl, TryFromSpecImpl};

verus! {

impl From<Digit> for char {
    fn from(value: Digit) -> (c: char) {
        value.to_char()
    }
}

impl FromSpecImpl<Digit> for char {
    open spec fn obeys_from_spec() -> bool {
        true
    }

    open spec fn from_spec(value: Digit) -> char {
        value.spec_to_char()
    }
}

impl From<Digit> for i8 {
    fn from(value: Digit) -> (i: i8) {
        value.to_i8()
    }
}

impl FromSpecImpl<Digit> for i8 {
    open spec fn obeys_from_spec() -> bool {
        true
    }

    open spec fn from_spec(value: Digit) -> i8 {
        value.to_int() as i8
    }
}

impl TryFrom<char> for Digit {
    type Error = TernaryError;

    fn try_from(value: char) -> (r: Result<Digit, TernaryError>) {
        Digit::from_char(value)
    }
}

impl TryFromSpecImpl<char> for Digit {
    open spec fn obeys_try_from_spec() -> bool {
        true
    }

    open spec fn try_from_spec(value: char) -> Result<Digit, TernaryError> {
        if is_digit_char(value) {
            Ok(digit_of_char(value))
        } else {
            Err(TernaryError::InvalidInput)
        }
    }
}

impl TryFrom<i8> for Digit {
    type Error = TernaryError;

    fn try_from(value: i8) -> (r: Result<Digit, TernaryError>) {
        Digit::from_i8(value)
    }
}

impl TryFromSpecImpl<i8> for Digit {
    open spec fn obeys_try_from_spec() -> bool {
        true
    }

    open spec fn try_from_spec(value: i8) -> Result<Digit, TernaryError> {
        if -1 <= value <= 1 {
            Ok(digit_of_int(value as int))
        } else {
            Err(TernaryError::InvalidInput)
        }
    }
}

impl<const SIZE: usize> From<Tryte<SIZE>> for i64 {
    fn from(tryte: Tryte<SIZE>) -> (i: i64) {
        tryte.to_i64()
    }
}

impl<const SIZE: usize> FromSpecImpl<Tryte<SIZE>> for i64 {
    open spec fn obeys_from_spec() -> bool {
        true
    }

    open spec fn from_spec(tryte: Tryte<SIZE>) -> i64 {
        value(tryte@) as i64
    }
}

impl FromStr for Ternary {
    type Err = ParseTernaryError;

    /// Reads a number as [`Ternary::parse`] does.
    fn from_str(s: &str) -> (r: Result<Ternary, ParseTernaryError>)
        ensures
            r.is_ok() == is_digit_text(s@),
            match r {
                Ok(t) => t@ == digits_of_text(s@),
                Err(e) => digit_text_failure(s@, e),
            },
    {
        Ternary::parse(s)
    }
}

impl<const SIZE: usize> FromStr for Tryte<SIZE> {
    type Err = TernaryError;

    /// Reads a number as [`Ternary::parse`] does and makes a tryte of it
    /// as [`Tryte::from_ternary`] does.
    fn from_str(s: &str) -> (r: Result<Tryte<SIZE>, TernaryError>)
        ensures
            r.is_ok() == (is_digit_text(s@) && SIZE <= MAX_SIZE && significant_len(
                digits_of_text(s@),
            ) <= SIZE),
            match r {
                Ok(t) => t@ == padded(significant(digits_of_text(s@)), SIZE as nat),
                Err(TernaryError::Parse(e)) => digit_text_failure(s@, e),
                Err(e) => is_digit_text(s@) && e == if SIZE > MAX_SIZE {
                    TernaryError::Overflow
                } else {
                    TernaryError::LengthExceeded
                },
            },
    {
        match Ternary::parse(s) {
            Ok(t) => Tryte::from_ternary(&t),
            Err(e) => Err(TernaryError::Parse(e)),
        }
    }
}

} // verus!
