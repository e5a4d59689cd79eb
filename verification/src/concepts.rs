//! The operations that every sequence of digits offers: access to the
//! digits, and four ways to apply an operation on digits along the
//! sequence.

use crate::digit::Digit;
use crate::model::{carry_chain, digit_from_right, longer, shorter_padded};
use vstd::prelude::*;

verus! {

/// A sequence of digits to which operations on digits can be applied
/// digit by digit.
///
/// Every operation on whole numbers that works digit by digit is one call
/// of one of the four combinators with an operation on digits: a new
/// operation on digits needs no new code to reach numbers.
pub trait DigitOperate: Sized {
    /// The digits of the value, the most significant one first.
    spec fn digits(&self) -> Seq<Digit>;

    /// The digits of the value, the most significant one first.
    fn to_digits(&self) -> (r: Vec<Digit>)
        ensures
            r@ == self.digits(),
    ;

    /// The digit at `index` counted from the right, 0 being the least
    /// significant digit; `None` where there is no such digit.
    fn digit(&self, index: usize) -> (r: Option<Digit>)
        ensures
            r == digit_from_right(self.digits(), index as nat),
    ;

    /// Applies `f` to each digit: the result has, at each position, what
    /// `f` returned for the digit at that position.
    fn each<F: Fn(Digit) -> Digit>(&self, f: F) -> (r: Self)
        requires
            forall|i: int|
                0 <= i < self.digits().len() ==> call_requires(f, (#[trigger] self.digits()[i],)),
        ensures
            r.digits().len() == self.digits().len(),
            forall|i: int|
                0 <= i < self.digits().len() ==> call_ensures(
                    f,
                    (self.digits()[i],),
                    #[trigger] r.digits()[i],
                ),
    ;

    /// Applies `f` to each digit together with the fixed digit `other`.
    fn each_with<F: Fn(Digit, Digit) -> Digit>(&self, f: F, other: Digit) -> (r: Self)
        requires
            forall|i: int|
                0 <= i < self.digits().len() ==> call_requires(
                    f,
                    (#[trigger] self.digits()[i], other),
                ),
        ensures
            r.digits().len() == self.digits().len(),
            forall|i: int|
                0 <= i < self.digits().len() ==> call_ensures(
                    f,
                    (self.digits()[i], other),
                    #[trigger] r.digits()[i],
                ),
    ;

    /// Applies `f` to the digits of two values position by position, the
    /// values being aligned at their last digits.
    ///
    /// The shorter value counts as extended by zeros on the left, and the
    /// result is as long as the longer one. `f` always gets the digit of
    /// the longer value first: where `self` is the shorter one, the two
    /// operands change places. That makes no difference for a commutative
    /// `f` and turns every other, such as an implication, around.
    fn each_zip<F: Fn(Digit, Digit) -> Digit>(&self, f: F, other: Self) -> (r: Self)
        requires
            forall|i: int|
                0 <= i < longer(self.digits(), other.digits()).len() ==> call_requires(
                    f,
                    (
                        #[trigger] longer(self.digits(), other.digits())[i],
                        shorter_padded(self.digits(), other.digits())[i],
                    ),
                ),
        ensures
            r.digits().len() == longer(self.digits(), other.digits()).len(),
            forall|i: int|
                0 <= i < r.digits().len() ==> call_ensures(
                    f,
                    (
                        longer(self.digits(), other.digits())[i],
                        shorter_padded(self.digits(), other.digits())[i],
                    ),
                    #[trigger] r.digits()[i],
                ),
    ;

    /// Applies `f` to the digits of two values position by position, from
    /// the last digit to the first, handing a carry along.
    ///
    /// `f` gets a digit of each value and the carry, `Zero` at the start,
    /// and returns the next carry and the digit of the result. The values
    /// are aligned and may change places as for [`DigitOperate::each_zip`].
    /// The carry that is left after the first digit is dropped.
    fn each_zip_carry<F: Fn(Digit, Digit, Digit) -> (Digit, Digit)>(&self, f: F, other: Self) -> (r:
        Self)
        requires
            forall|i: int, carry: Digit|
                0 <= i < longer(self.digits(), other.digits()).len() ==> #[trigger] call_requires(
                    f,
                    (
                        longer(self.digits(), other.digits())[i],
                        shorter_padded(self.digits(), other.digits())[i],
                        carry,
                    ),
                ),
        ensures
            exists|carries: Seq<Digit>|
                carry_chain(
                    f,
                    longer(self.digits(), other.digits()),
                    shorter_padded(self.digits(), other.digits()),
                    r.digits(),
                    carries,
                ),
    ;
}

} // verus!
