//! Balanced ternary numbers of a fixed number of digits.

use crate::concepts::DigitOperate;
use crate::digit::Digit;
use crate::error::TernaryError;
use crate::laws::law_fixed_width;
use crate::lemmas::{
    lemma_balanced, lemma_fits_monotonic, lemma_fixed_digits_of_value, lemma_pow3_40,
    lemma_split_significant, lemma_trimmed, lemma_value_fits, lemma_value_padded,
};
use crate::model::{
    carry_chain, fits, fixed_digits, in_i64, longer, negated, padded, shorter_padded, significant,
    significant_len, text_of_digits, value, zeros, zipped,
};
use crate::operations::truncated_quotient;
use crate::ternary::Ternary;
use vstd::prelude::*;
use vstd::std_specs::cmp::PartialEqSpecImpl;

verus! {

/// The largest number of digits that a [`Tryte`] can have: every number of
/// 40 digits fits a 64-bit signed integer, and not every one of 41.
pub const MAX_SIZE: usize = 40;

/// A balanced ternary number of exactly `SIZE` digits, copied freely.
///
/// `SIZE` is at most 40, so that the value always fits an `i64`: a value
/// of the type exists only for such a size, and every constructor fails
/// with `Overflow` for a larger one. With 6 digits, the tryte of the Setun
/// computers, the values run from -364 to 364. The view of a tryte is its
/// sequence of digits, the most significant one first.
#[derive(Debug, Copy, Clone, Hash)]
pub struct Tryte<const SIZE: usize> {
    raw: [Digit; SIZE],
}

impl<const SIZE: usize> View for Tryte<SIZE> {
    type V = Seq<Digit>;

    closed spec fn view(&self) -> Seq<Digit> {
        self.raw@
    }
}

impl<const SIZE: usize> PartialEq for Tryte<SIZE> {
    /// Two trytes are equal when they have the same digits, which is when
    /// they have the same value.
    fn eq(&self, other: &Self) -> (r: bool) {
        let mut i: usize = 0;
        while i < SIZE
            invariant
                i <= SIZE,
                forall|j: int| 0 <= j < i ==> self.raw@[j] == other.raw@[j],
            decreases SIZE - i,
        {
            if self.raw[i] != other.raw[i] {
                return false;
            }
            i += 1;
        }
        assert(self.raw@ =~= other.raw@);
        true
    }
}

impl<const SIZE: usize> PartialEqSpecImpl for Tryte<SIZE> {
    open spec fn obeys_eq_spec() -> bool {
        true
    }

    open spec fn eq_spec(&self, other: &Self) -> bool {
        self@ == other@
    }
}

impl<const SIZE: usize> Eq for Tryte<SIZE> {

}

/// The value of a number of at most 40 digits fits an `i64`.
pub proof fn lemma_fits_i64(v: int, n: nat)
    requires
        fits(v, n),
        n <= MAX_SIZE,
    ensures
        in_i64(v),
{
    lemma_fits_monotonic(v, n, 40);
    lemma_pow3_40();
}

impl<const SIZE: usize> Tryte<SIZE> {
    #[verifier::type_invariant]
    spec fn size_is_bounded(self) -> bool {
        SIZE <= MAX_SIZE
    }

    /// A tryte has exactly `SIZE` digits.
    pub proof fn lemma_len(self)
        ensures
            self@.len() == SIZE,
    {
    }

    /// The tryte with the given digits, the most significant one first.
    ///
    /// Fails with `Overflow` exactly when `SIZE` is above 40.
    pub fn new(digits: [Digit; SIZE]) -> (r: Result<Self, TernaryError>)
        ensures
            r.is_ok() == (SIZE <= MAX_SIZE),
            match r {
                Ok(t) => t@ == digits@,
                Err(e) => e == TernaryError::Overflow,
            },
    {
        if SIZE > MAX_SIZE {
            return Err(TernaryError::Overflow);
        }
        Ok(Tryte { raw: digits })
    }

    /// The tryte whose digits are all `digit`.
    fn filled(digit: Digit) -> (r: Result<Self, TernaryError>)
        ensures
            r.is_ok() == (SIZE <= MAX_SIZE),
            match r {
                Ok(t) => t@ == Seq::new(SIZE as nat, |i: int| digit),
                Err(e) => e == TernaryError::Overflow,
            },
    {
        if SIZE > MAX_SIZE {
            return Err(TernaryError::Overflow);
        }
        let raw = [digit; SIZE];
        assert(raw@ =~= Seq::new(SIZE as nat, |i: int| digit));
        Ok(Tryte { raw })
    }

    /// The largest tryte, `++...+`, of value `(3^SIZE - 1) / 2`.
    ///
    /// Fails with `Overflow` exactly when `SIZE` is above 40.
    pub fn max() -> (r: Result<Self, TernaryError>)
        ensures
            r.is_ok() == (SIZE <= MAX_SIZE),
            match r {
                Ok(t) => t@ == Seq::new(SIZE as nat, |i: int| Digit::Pos),
                Err(e) => e == TernaryError::Overflow,
            },
    {
        Self::filled(Digit::Pos)
    }

    /// The smallest tryte, `--...-`, of value `-(3^SIZE - 1) / 2`.
    ///
    /// Fails with `Overflow` exactly when `SIZE` is above 40.
    pub fn min() -> (r: Result<Self, TernaryError>)
        ensures
            r.is_ok() == (SIZE <= MAX_SIZE),
            match r {
                Ok(t) => t@ == Seq::new(SIZE as nat, |i: int| Digit::Neg),
                Err(e) => e == TernaryError::Overflow,
            },
    {
        Self::filled(Digit::Neg)
    }

    /// The tryte `00...0`, of value 0.
    ///
    /// Fails with `Overflow` exactly when `SIZE` is above 40.
    pub fn zero() -> (r: Result<Self, TernaryError>)
        ensures
            r.is_ok() == (SIZE <= MAX_SIZE),
            match r {
                Ok(t) => t@ == zeros(SIZE as nat),
                Err(e) => e == TernaryError::Overflow,
            },
    {
        Self::filled(Digit::Zero)
    }

    /// The same digits as a number of any length.
    pub fn to_ternary(&self) -> (r: Ternary)
        ensures
            r@ == self@,
            r@.len() == SIZE,
    {
        let mut digits: Vec<Digit> = Vec::new();
        let mut i: usize = 0;
        while i < SIZE
            invariant
                i <= SIZE,
                digits@ == self.raw@.take(i as int),
            decreases SIZE - i,
        {
            digits.push(self.raw[i]);
            assert(self.raw@.take(i + 1) =~= self.raw@.take(i as int).push(self.raw@[i as int]));
            i += 1;
        }
        assert(self.raw@.take(SIZE as int) =~= self.raw@);
        Ternary::new(digits)
    }

    /// The digits, the most significant one first.
    pub fn to_digit_slice(&self) -> (r: &[Digit])
        ensures
            r@ == self@,
    {
        self.raw.as_slice()
    }

    /// The tryte of a number that has exactly `SIZE` digits.
    fn from_exact(v: &Ternary) -> (r: Self)
        requires
            v@.len() == SIZE,
            SIZE <= MAX_SIZE,
        ensures
            r@ == v@,
    {
        let digits = v.to_digit_slice();
        let mut raw = [Digit::Zero; SIZE];
        let mut i: usize = 0;
        while i < SIZE
            invariant
                i <= SIZE,
                digits@.len() == SIZE,
                forall|j: int| 0 <= j < i ==> raw@[j] == digits@[j],
            decreases SIZE - i,
        {
            raw[i] = digits[i];
            i += 1;
        }
        assert(raw@ =~= v@);
        Tryte { raw }
    }

    /// The tryte of the same value as `v`: the significant digits of `v`
    /// with zeros added on the left up to `SIZE` digits.
    ///
    /// Fails with `Overflow` when `SIZE` is above 40, and else with
    /// `LengthExceeded` exactly when `v` has more than `SIZE` significant
    /// digits; leading zeros of `v` do not count.
    pub fn from_ternary(v: &Ternary) -> (r: Result<Self, TernaryError>)
        ensures
            r.is_ok() == (SIZE <= MAX_SIZE && significant_len(v@) <= SIZE),
            match r {
                Ok(t) => t@ == padded(significant(v@), SIZE as nat) && value(t@) == value(v@),
                Err(e) => e == if SIZE > MAX_SIZE {
                    TernaryError::Overflow
                } else {
                    TernaryError::LengthExceeded
                },
            },
    {
        if SIZE > MAX_SIZE {
            return Err(TernaryError::Overflow);
        }
        let shortest = v.trim();
        let digits = shortest.to_digit_slice();
        let n = digits.len();
        proof {
            lemma_split_significant(v@);
            lemma_trimmed(v@);
        }
        let count = if n == 1 && digits[0] == Digit::Zero {
            0
        } else {
            n
        };
        assert(count == significant_len(v@));
        if count > SIZE {
            return Err(TernaryError::LengthExceeded);
        }
        let mut raw = [Digit::Zero; SIZE];
        let mut i: usize = 0;
        while i < count
            invariant
                i <= count <= SIZE,
                count <= n,
                n == digits@.len(),
                forall|j: int| 0 <= j < SIZE - i ==> raw@[j] == Digit::Zero,
                forall|j: int| SIZE - i <= j < SIZE ==> raw@[j] == digits@[n - SIZE + j],
            decreases count - i,
        {
            raw[SIZE - 1 - i] = digits[n - 1 - i];
            i += 1;
        }
        proof {
            assert(raw@ =~= padded(significant(v@), SIZE as nat));
            lemma_value_padded(significant(v@), SIZE as nat);
        }
        Ok(Tryte { raw })
    }

    /// The value of the tryte.
    pub fn to_i64(&self) -> (r: i64)
        ensures
            r == value(self@),
    {
        proof {
            use_type_invariant(self);
        }
        self.to_ternary().short_value()
    }

    /// The tryte of value `v`.
    ///
    /// Fails with `Overflow` when `SIZE` is above 40, and else with
    /// `LengthExceeded` exactly when `v` cannot be written with `SIZE`
    /// digits, that is when `|v| > (3^SIZE - 1) / 2`.
    pub fn from_i64(v: i64) -> (r: Result<Self, TernaryError>)
        ensures
            r.is_ok() == (SIZE <= MAX_SIZE && fits(v as int, SIZE as nat)),
            match r {
                Ok(t) => t@ == fixed_digits(v as int, SIZE as nat) && value(t@) == v,
                Err(e) => e == if SIZE > MAX_SIZE {
                    TernaryError::Overflow
                } else {
                    TernaryError::LengthExceeded
                },
            },
    {
        let shortest = Ternary::from_dec(v);
        proof {
            law_fixed_width(shortest@, SIZE as nat);
        }
        let r = Self::from_ternary(&shortest);
        proof {
            if let Ok(t) = r {
                lemma_fixed_digits_of_value(t@);
            }
        }
        r
    }

    /// The text of the tryte: `-`, `0` or `+` for each of its `SIZE`
    /// digits.
    pub fn to_string(&self) -> (r: String)
        ensures
            r@ == text_of_digits(self@),
    {
        self.to_ternary().to_string()
    }
}

impl<const SIZE: usize> Tryte<SIZE> {
    /// The tryte with each digit negated, which is the tryte of the
    /// opposite value.
    pub fn neg(self) -> (r: Self)
        ensures
            r@ == negated(self@),
    {
        proof {
            use_type_invariant(self);
        }
        Self::from_exact(&self.to_ternary().neg())
    }

    /// Logical negation digit by digit; the same operation as
    /// [`Tryte::neg`].
    pub fn not(self) -> (r: Self)
        ensures
            r@ == negated(self@),
    {
        self.neg()
    }

    /// The sum of two trytes.
    ///
    /// Fails with `Overflow` where the sum lies outside the range of
    /// `i64`, and else with `LengthExceeded` exactly when it cannot be
    /// written with `SIZE` digits: nothing is ever cut off.
    pub fn add(self, rhs: Self) -> (r: Result<Self, TernaryError>)
        ensures
            r.is_ok() == fits(value(self@) + value(rhs@), SIZE as nat),
            match r {
                Ok(t) => t@ == fixed_digits(value(self@) + value(rhs@), SIZE as nat) && value(t@)
                    == value(self@) + value(rhs@),
                Err(e) => e == if in_i64(value(self@) + value(rhs@)) {
                    TernaryError::LengthExceeded
                } else {
                    TernaryError::Overflow
                },
            },
    {
        proof {
            use_type_invariant(self);
            lemma_value_fits(self@);
            lemma_value_fits(rhs@);
            lemma_fits_i64(value(self@), SIZE as nat);
            lemma_fits_i64(value(rhs@), SIZE as nat);
            if fits(value(self@) + value(rhs@), SIZE as nat) {
                lemma_fits_i64(value(self@) + value(rhs@), SIZE as nat);
            }
        }
        match self.to_ternary().add(&rhs.to_ternary()) {
            Ok(t) => {
                proof {
                    lemma_balanced(value(self@) + value(rhs@));
                    law_fixed_width(t@, SIZE as nat);
                }
                let r = Self::from_ternary(&t);
                proof {
                    if let Ok(fixed) = r {
                        lemma_fixed_digits_of_value(fixed@);
                    }
                }
                r
            },
            Err(e) => Err(e),
        }
    }

    /// The difference of two trytes.
    ///
    /// Fails with `Overflow` where the difference lies outside the range of
    /// `i64`, and else with `LengthExceeded` exactly when it cannot be
    /// written with `SIZE` digits: nothing is ever cut off.
    pub fn sub(self, rhs: Self) -> (r: Result<Self, TernaryError>)
        ensures
            r.is_ok() == fits(value(self@) - value(rhs@), SIZE as nat),
            match r {
                Ok(t) => t@ == fixed_digits(value(self@) - value(rhs@), SIZE as nat) && value(t@)
                    == value(self@) - value(rhs@),
                Err(e) => e == if in_i64(value(self@) - value(rhs@)) {
                    TernaryError::LengthExceeded
                } else {
                    TernaryError::Overflow
                },
            },
    {
        proof {
            use_type_invariant(self);
            lemma_value_fits(self@);
            lemma_value_fits(rhs@);
            lemma_fits_i64(value(self@), SIZE as nat);
            lemma_fits_i64(value(rhs@), SIZE as nat);
            if fits(value(self@) - value(rhs@), SIZE as nat) {
                lemma_fits_i64(value(self@) - value(rhs@), SIZE as nat);
            }
        }
        match self.to_ternary().sub(&rhs.to_ternary()) {
            Ok(t) => {
                proof {
                    lemma_balanced(value(self@) - value(rhs@));
                    law_fixed_width(t@, SIZE as nat);
                }
                let r = Self::from_ternary(&t);
                proof {
                    if let Ok(fixed) = r {
                        lemma_fixed_digits_of_value(fixed@);
                    }
                }
                r
            },
            Err(e) => Err(e),
        }
    }

    /// The product of two trytes.
    ///
    /// Fails with `Overflow` where the product lies outside the range of
    /// `i64`, and else with `LengthExceeded` exactly when it cannot be
    /// written with `SIZE` digits: nothing is ever cut off.
    pub fn mul(self, rhs: Self) -> (r: Result<Self, TernaryError>)
        ensures
            r.is_ok() == fits(value(self@) * value(rhs@), SIZE as nat),
            match r {
                Ok(t) => t@ == fixed_digits(value(self@) * value(rhs@), SIZE as nat) && value(t@)
                    == value(self@) * value(rhs@),
                Err(e) => e == if in_i64(value(self@) * value(rhs@)) {
                    TernaryError::LengthExceeded
                } else {
                    TernaryError::Overflow
                },
            },
    {
        proof {
            use_type_invariant(self);
            lemma_value_fits(self@);
            lemma_value_fits(rhs@);
            lemma_fits_i64(value(self@), SIZE as nat);
            lemma_fits_i64(value(rhs@), SIZE as nat);
            if fits(value(self@) * value(rhs@), SIZE as nat) {
                lemma_fits_i64(value(self@) * value(rhs@), SIZE as nat);
            }
        }
        match self.to_ternary().mul(&rhs.to_ternary()) {
            Ok(t) => {
                proof {
                    lemma_balanced(value(self@) * value(rhs@));
                    law_fixed_width(t@, SIZE as nat);
                }
                let r = Self::from_ternary(&t);
                proof {
                    if let Ok(fixed) = r {
                        lemma_fixed_digits_of_value(fixed@);
                    }
                }
                r
            },
            Err(e) => Err(e),
        }
    }

    /// The quotient of two trytes, rounded towards zero.
    ///
    /// Fails with `DivideByZero` exactly when the value of `rhs` is 0. The
    /// quotient is never larger than the dividend and so always fits.
    pub fn div(self, rhs: Self) -> (r: Result<Self, TernaryError>)
        ensures
            r.is_ok() == (value(rhs@) != 0),
            match r {
                Ok(t) => t@ == fixed_digits(
                    truncated_quotient(value(self@), value(rhs@)),
                    SIZE as nat,
                ) && value(t@) == truncated_quotient(value(self@), value(rhs@)),
                Err(e) => e == TernaryError::DivideByZero,
            },
    {
        proof {
            use_type_invariant(self);
            lemma_value_fits(self@);
            lemma_value_fits(rhs@);
            lemma_fits_i64(value(self@), SIZE as nat);
            lemma_fits_i64(value(rhs@), SIZE as nat);
            if value(rhs@) != 0 {
                lemma_quotient_fits(value(self@), value(rhs@), SIZE as nat);
                lemma_fits_i64(truncated_quotient(value(self@), value(rhs@)), SIZE as nat);
            }
        }
        match self.to_ternary().div(&rhs.to_ternary()) {
            Ok(t) => {
                proof {
                    lemma_balanced(truncated_quotient(value(self@), value(rhs@)));
                    law_fixed_width(t@, SIZE as nat);
                }
                let r = Self::from_ternary(&t);
                proof {
                    if let Ok(fixed) = r {
                        lemma_fixed_digits_of_value(fixed@);
                    }
                }
                r
            },
            Err(e) => Err(e),
        }
    }

    /// Conjunction digit by digit: each digit of the result is the smaller
    /// of the two digits at its position.
    pub fn bitand(self, rhs: Self) -> (r: Self)
        ensures
            r@ == zipped(self@, rhs@, |a: Digit, b: Digit| a.spec_bitand(b)),
    {
        proof {
            use_type_invariant(self);
        }
        Self::from_exact(&self.to_ternary().bitand(&rhs.to_ternary()))
    }

    /// Disjunction digit by digit: each digit of the result is the larger
    /// of the two digits at its position.
    pub fn bitor(self, rhs: Self) -> (r: Self)
        ensures
            r@ == zipped(self@, rhs@, |a: Digit, b: Digit| a.spec_bitor(b)),
    {
        proof {
            use_type_invariant(self);
        }
        Self::from_exact(&self.to_ternary().bitor(&rhs.to_ternary()))
    }

    /// Exclusive disjunction digit by digit.
    pub fn bitxor(self, rhs: Self) -> (r: Self)
        ensures
            r@ == zipped(self@, rhs@, |a: Digit, b: Digit| a.spec_bitxor(b)),
    {
        proof {
            use_type_invariant(self);
        }
        Self::from_exact(&self.to_ternary().bitxor(&rhs.to_ternary()))
    }
}

/// A quotient rounded towards zero is no larger than the dividend either
/// way, and fits wherever the dividend fits.
pub proof fn lemma_quotient_fits(a: int, b: int, n: nat)
    requires
        fits(a, n),
        b != 0,
    ensures
        fits(truncated_quotient(a, b), n),
{
    let x = if a >= 0 {
        a
    } else {
        -a
    };
    let d = if b > 0 {
        b
    } else {
        -b
    };
    assert(0 <= x / d <= x) by (nonlinear_arith)
        requires
            x >= 0,
            d >= 1,
    ;
}

impl<const SIZE: usize> DigitOperate for Tryte<SIZE> {
    open spec fn digits(&self) -> Seq<Digit> {
        self@
    }

    fn to_digits(&self) -> (r: Vec<Digit>) {
        self.to_ternary().to_digits()
    }

    fn digit(&self, index: usize) -> (r: Option<Digit>) {
        self.to_ternary().digit(index)
    }

    fn each<F: Fn(Digit) -> Digit>(&self, f: F) -> (r: Self) {
        proof {
            use_type_invariant(self);
        }
        let digits = self.to_ternary();
        assert(digits.digits() == self.digits());
        Self::from_exact(&digits.each(f))
    }

    fn each_with<F: Fn(Digit, Digit) -> Digit>(&self, f: F, other: Digit) -> (r: Self) {
        proof {
            use_type_invariant(self);
        }
        let digits = self.to_ternary();
        assert(digits.digits() == self.digits());
        Self::from_exact(&digits.each_with(f, other))
    }

    fn each_zip<F: Fn(Digit, Digit) -> Digit>(&self, f: F, other: Self) -> (r: Self) {
        proof {
            use_type_invariant(self);
        }
        let left = self.to_ternary();
        let right = other.to_ternary();
        assert(left.digits() == self.digits() && right.digits() == other.digits());
        Self::from_exact(&left.each_zip(f, right))
    }

    fn each_zip_carry<F: Fn(Digit, Digit, Digit) -> (Digit, Digit)>(&self, f: F, other: Self) -> (r:
        Self) {
        proof {
            use_type_invariant(self);
        }
        let left = self.to_ternary();
        let right = other.to_ternary();
        assert(left.digits() == self.digits() && right.digits() == other.digits());
        let t = left.each_zip_carry(f, right);
        let r = Self::from_exact(&t);
        proof {
            let carries = choose|carries: Seq<Digit>|
                carry_chain(
                    f,
                    longer(self@, other@),
                    shorter_padded(self@, other@),
                    t.digits(),
                    carries,
                );
            assert(carry_chain(
                f,
                longer(self.digits(), other.digits()),
                shorter_padded(self.digits(), other.digits()),
                r.digits(),
                carries,
            ));
        }
        r
    }
}

} // verus!
