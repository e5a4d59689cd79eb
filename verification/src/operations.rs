//! Arithmetic and digit-by-digit logic on numbers of any length.
//!
//! The two families work in different ways. Sum, difference, product and
//! quotient go through the values: both operands are turned into 64-bit
//! integers, the operation is made on those with a check for overflow, and
//! the result is written anew in its shortest form. Conjunction,
//! disjunction and exclusive disjunction work on the digits and never look
//! at the values.

use crate::concepts::DigitOperate;
use crate::digit::Digit;
use crate::error::TernaryError;
use crate::model::{balanced, in_i64, negated, value, zipped};
use crate::ternary::Ternary;
use vstd::prelude::*;

verus! {

/// The quotient of `a` by `b` rounded towards zero; `b` is not 0.
pub open spec fn truncated_quotient(a: int, b: int) -> int {
    if a >= 0 && b > 0 {
        a / b
    } else if a >= 0 {
        -(a / (-b))
    } else if b > 0 {
        -((-a) / b)
    } else {
        (-a) / (-b)
    }
}

impl Ternary {
    /// The sum of two numbers, in its shortest writing.
    ///
    /// Fails with `Overflow` exactly when an operand or the sum lies
    /// outside the range of `i64`.
    pub fn add(&self, rhs: &Ternary) -> (r: Result<Ternary, TernaryError>)
        ensures
            r.is_ok() == (in_i64(value(self@)) && in_i64(value(rhs@)) && in_i64(
                value(self@) + value(rhs@),
            )),
            match r {
                Ok(sum) => sum@ == balanced(value(self@) + value(rhs@)),
                Err(e) => e == TernaryError::Overflow,
            },
    {
        let a = self.to_dec()?;
        let b = rhs.to_dec()?;
        match a.checked_add(b) {
            Some(sum) => Ok(Ternary::from_dec(sum)),
            None => Err(TernaryError::Overflow),
        }
    }

    /// The number plus the value of one digit, in its shortest writing.
    ///
    /// Fails with `Overflow` exactly when the number or the sum lies
    /// outside the range of `i64`.
    pub fn add_digit(&self, rhs: Digit) -> (r: Result<Ternary, TernaryError>)
        ensures
            r.is_ok() == (in_i64(value(self@)) && in_i64(value(self@) + rhs.to_int())),
            match r {
                Ok(sum) => sum@ == balanced(value(self@) + rhs.to_int()),
                Err(e) => e == TernaryError::Overflow,
            },
    {
        let a = self.to_dec()?;
        match a.checked_add(rhs.to_i8() as i64) {
            Some(sum) => Ok(Ternary::from_dec(sum)),
            None => Err(TernaryError::Overflow),
        }
    }

    /// The difference of two numbers, in its shortest writing.
    ///
    /// Fails with `Overflow` exactly when an operand or the difference
    /// lies outside the range of `i64`.
    pub fn sub(&self, rhs: &Ternary) -> (r: Result<Ternary, TernaryError>)
        ensures
            r.is_ok() == (in_i64(value(self@)) && in_i64(value(rhs@)) && in_i64(
                value(self@) - value(rhs@),
            )),
            match r {
                Ok(difference) => difference@ == balanced(value(self@) - value(rhs@)),
                Err(e) => e == TernaryError::Overflow,
            },
    {
        let a = self.to_dec()?;
        let b = rhs.to_dec()?;
        match a.checked_sub(b) {
            Some(difference) => Ok(Ternary::from_dec(difference)),
            None => Err(TernaryError::Overflow),
        }
    }

    /// The number minus the value of one digit, in its shortest writing.
    ///
    /// Fails with `Overflow` exactly when the number or the difference
    /// lies outside the range of `i64`.
    pub fn sub_digit(&self, rhs: Digit) -> (r: Result<Ternary, TernaryError>)
        ensures
            r.is_ok() == (in_i64(value(self@)) && in_i64(value(self@) - rhs.to_int())),
            match r {
                Ok(difference) => difference@ == balanced(value(self@) - rhs.to_int()),
                Err(e) => e == TernaryError::Overflow,
            },
    {
        let a = self.to_dec()?;
        match a.checked_sub(rhs.to_i8() as i64) {
            Some(difference) => Ok(Ternary::from_dec(difference)),
            None => Err(TernaryError::Overflow),
        }
    }

    /// The product of two numbers, in its shortest writing.
    ///
    /// Fails with `Overflow` exactly when an operand or the product lies
    /// outside the range of `i64`.
    pub fn mul(&self, rhs: &Ternary) -> (r: Result<Ternary, TernaryError>)
        ensures
            r.is_ok() == (in_i64(value(self@)) && in_i64(value(rhs@)) && in_i64(
                value(self@) * value(rhs@),
            )),
            match r {
                Ok(product) => product@ == balanced(value(self@) * value(rhs@)),
                Err(e) => e == TernaryError::Overflow,
            },
    {
        let a = self.to_dec()?;
        let b = rhs.to_dec()?;
        match a.checked_mul(b) {
            Some(product) => Ok(Ternary::from_dec(product)),
            None => Err(TernaryError::Overflow),
        }
    }

    /// The quotient of two numbers rounded towards zero, in its shortest
    /// writing.
    ///
    /// Fails with `Overflow` where an operand lies outside the range of
    /// `i64`; otherwise with `DivideByZero` where the value of `rhs` is 0;
    /// otherwise with `Overflow` where the quotient lies outside the range
    /// of `i64`, which is the case of the smallest `i64` divided by -1.
    pub fn div(&self, rhs: &Ternary) -> (r: Result<Ternary, TernaryError>)
        ensures
            r.is_ok() == (in_i64(value(self@)) && in_i64(value(rhs@)) && value(rhs@) != 0 && in_i64(
                truncated_quotient(value(self@), value(rhs@)),
            )),
            match r {
                Ok(quotient) => quotient@ == balanced(
                    truncated_quotient(value(self@), value(rhs@)),
                ),
                Err(TernaryError::DivideByZero) => in_i64(value(self@)) && value(rhs@) == 0,
                Err(e) => e == TernaryError::Overflow && !(in_i64(value(self@)) && value(rhs@)
                    == 0),
            },
    {
        let a = self.to_dec()?;
        let b = rhs.to_dec()?;
        if b == 0 {
            return Err(TernaryError::DivideByZero);
        }
        match a.checked_div(b) {
            Some(quotient) => Ok(Ternary::from_dec(quotient)),
            None => Err(TernaryError::Overflow),
        }
    }

    /// Logical negation digit by digit; the same operation as
    /// [`Ternary::neg`].
    pub fn not(&self) -> (r: Ternary)
        ensures
            r@ == negated(self@),
    {
        self.neg()
    }

    /// Conjunction digit by digit, the numbers being aligned at their last
    /// digits and the shorter one extended by zeros: each digit of the
    /// result is the smaller of the two digits at its position.
    pub fn bitand(&self, rhs: &Ternary) -> (r: Ternary)
        ensures
            r@ == zipped(self@, rhs@, |a: Digit, b: Digit| a.spec_bitand(b)),
    {
        let r = self.each_zip(Digit::bitand, rhs.clone());
        assert(r@ =~= zipped(self@, rhs@, |a: Digit, b: Digit| a.spec_bitand(b)));
        r
    }

    /// Disjunction digit by digit, the numbers being aligned at their last
    /// digits and the shorter one extended by zeros: each digit of the
    /// result is the larger of the two digits at its position.
    pub fn bitor(&self, rhs: &Ternary) -> (r: Ternary)
        ensures
            r@ == zipped(self@, rhs@, |a: Digit, b: Digit| a.spec_bitor(b)),
    {
        let r = self.each_zip(Digit::bitor, rhs.clone());
        assert(r@ =~= zipped(self@, rhs@, |a: Digit, b: Digit| a.spec_bitor(b)));
        r
    }

    /// Exclusive disjunction digit by digit, the numbers being aligned at
    /// their last digits and the shorter one extended by zeros.
    pub fn bitxor(&self, rhs: &Ternary) -> (r: Ternary)
        ensures
            r@ == zipped(self@, rhs@, |a: Digit, b: Digit| a.spec_bitxor(b)),
    {
        let r = self.each_zip(Digit::bitxor, rhs.clone());
        assert(r@ =~= zipped(self@, rhs@, |a: Digit, b: Digit| a.spec_bitxor(b)));
        r
    }
}

} // verus!
