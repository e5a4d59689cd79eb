//! Balanced ternary numbers of any length.

use crate::concepts::DigitOperate;
use crate::digit::Digit;
use crate::error::{ParseTernaryError, TernaryError};
use crate::lemmas::{
    lemma_balanced_unique, lemma_fits_monotonic, lemma_leading_zeros_is, lemma_pow3_40,
    lemma_value_concat, lemma_value_escapes, lemma_value_fits, lemma_value_negated,
    lemma_value_push, lemma_value_single,
};
use crate::model::{
    balanced, canonical, carry_chain, digit_from_right, digit_text_failure, digits_of_text, in_i64,
    is_digit_text, longer, negated, padded, pow3, shorter_padded, text_of_digits, trimmed, value,
    zeros,
};
use crate::text::{
    format_radix, is_unbalanced_text, lemma_radix_digits, parse_base3, radix_digits, radix_text,
    unbalanced_failure, unbalanced_value, unsigned_digits,
};
use vstd::prelude::*;
use vstd::std_specs::cmp::PartialEqSpecImpl;

verus! {

/// A balanced ternary number: a sequence of digits, the most significant
/// one first.
///
/// Any sequence is a number, the empty one and those with leading zeros
/// included; nothing is trimmed unless [`Ternary::trim`] is called. The
/// view of a number is its sequence of digits.
#[derive(Debug, Hash)]
pub struct Ternary {
    digits: Vec<Digit>,
}

impl View for Ternary {
    type V = Seq<Digit>;

    closed spec fn view(&self) -> Seq<Digit> {
        self.digits@
    }
}

impl Clone for Ternary {
    fn clone(&self) -> (r: Self)
        ensures
            r@ == self@,
    {
        Ternary { digits: copy_digits(self.digits.as_slice(), 0, self.digits.len()) }
    }
}

impl PartialEq for Ternary {
    /// Two numbers are equal when they have the same digits; numbers of
    /// one value that differ in their leading zeros are not.
    fn eq(&self, other: &Self) -> (r: bool) {
        let n = self.digits.len();
        if n != other.digits.len() {
            return false;
        }
        let mut i: usize = 0;
        while i < n
            invariant
                i <= n,
                n == self.digits.len(),
                n == other.digits.len(),
                forall|j: int| 0 <= j < i ==> self.digits@[j] == other.digits@[j],
            decreases n - i,
        {
            if self.digits[i] != other.digits[i] {
                return false;
            }
            i += 1;
        }
        assert(self.digits@ =~= other.digits@);
        true
    }
}

impl PartialEqSpecImpl for Ternary {
    open spec fn obeys_eq_spec() -> bool {
        true
    }

    open spec fn eq_spec(&self, other: &Self) -> bool {
        self@ == other@
    }
}

impl Eq for Ternary {

}

/// The digits of `source` from index `from` up to, not including, `to`.
pub(crate) fn copy_digits(source: &[Digit], from: usize, to: usize) -> (r: Vec<Digit>)
    requires
        from <= to <= source@.len(),
    ensures
        r@ == source@.subrange(from as int, to as int),
{
    let mut out: Vec<Digit> = Vec::new();
    let mut i: usize = from;
    while i < to
        invariant
            from <= i <= to <= source@.len(),
            out@ == source@.subrange(from as int, i as int),
        decreases to - i,
    {
        out.push(source[i]);
        assert(source@.subrange(from as int, i + 1) =~= source@.subrange(
            from as int,
            i as int,
        ).push(source@[i as int]));
        i += 1;
    }
    out
}

/// One step of writing a number from its last digit on: where the digits
/// `low` and what is left to write, `left` times the next power of 3, make
/// up `total`, and `left` is `digit` plus three times `next`, the digits
/// `digit` followed by `low` and `next` make up `total` again.
proof fn lemma_sweep_step(low: Seq<Digit>, digit: Digit, left: int, next: int, total: int)
    requires
        total == value(low) + left * pow3(low.len()),
        left == digit.to_int() + 3 * next,
    ensures
        total == value(seq![digit] + low) + next * pow3(low.len() + 1),
{
    lemma_value_concat(seq![digit], low);
    lemma_value_single(digit);
    let p = pow3(low.len()) as int;
    let b = digit.to_int();
    assert((b + 3 * next) * p == b * p + next * (3 * p)) by (nonlinear_arith);
}

/// The digits of `source` in the opposite order.
fn reverse_digits(source: &Vec<Digit>) -> (r: Vec<Digit>)
    ensures
        r@ == source@.reverse(),
{
    let n = source.len();
    let mut out: Vec<Digit> = Vec::new();
    let mut i: usize = 0;
    while i < n
        invariant
            n == source.len(),
            i <= n,
            out@.len() == i,
            forall|j: int| 0 <= j < i ==> out@[j] == source@[n - 1 - j],
        decreases n - i,
    {
        out.push(source[n - 1 - i]);
        i += 1;
    }
    assert(out@ =~= source@.reverse());
    out
}

impl Ternary {
    /// The number with the given digits, the most significant one first.
    pub fn new(digits: Vec<Digit>) -> (r: Ternary)
        ensures
            r@ == digits@,
    {
        Ternary { digits }
    }

    /// The number of digits, leading zeros included.
    pub fn log(&self) -> (n: usize)
        ensures
            n == self@.len(),
    {
        self.digits.len()
    }

    /// The digits, the most significant one first.
    pub fn to_digit_slice(&self) -> (r: &[Digit])
        ensures
            r@ == self@,
    {
        self.digits.as_slice()
    }

    /// The digit at `index` counted from the right: index 0 is the least
    /// significant digit. `None` where the number has no such digit.
    pub fn get_digit(&self, index: usize) -> (r: Option<&Digit>)
        ensures
            r.is_some() == (index < self@.len()),
            match r {
                Some(d) => Some(*d) == digit_from_right(self@, index as nat),
                None => digit_from_right(self@, index as nat).is_none(),
            },
    {
        let n = self.digits.len();
        if index < n {
            Some(&self.digits[n - 1 - index])
        } else {
            None
        }
    }

    /// Reads a number from its text, one digit for each character, in the
    /// order given and with leading zeros kept.
    ///
    /// Fails on the first character that is not `-`, `0` or `+`, and
    /// reports that character and its index.
    pub fn parse(text: &str) -> (r: Result<Ternary, ParseTernaryError>)
        ensures
            r.is_ok() == is_digit_text(text@),
            match r {
                Ok(t) => t@ == digits_of_text(text@),
                Err(e) => digit_text_failure(text@, e),
            },
    {
        let mut digits: Vec<Digit> = Vec::new();
        for c in it: text.chars()
            invariant
                it.seq() == text@,
                digits@ == digits_of_text(text@.take(it.index() as int)),
                is_digit_text(text@.take(it.index() as int)),
        {
            let ghost before = text@.take(it.index() as int);
            match Digit::from_char(c) {
                Ok(d) => {
                    digits.push(d);
                    proof {
                        let after = text@.take(it.index() + 1);
                        assert(after =~= before.push(c));
                        assert(digits@ =~= digits_of_text(after));
                    }
                },
                Err(_) => {
                    return Err(ParseTernaryError { position: digits.len(), found: Some(c) });
                },
            }
        }
        assert(text@.take(text@.len() as int) =~= text@);
        Ok(Ternary { digits })
    }

    /// The value of the number as a 64-bit integer.
    ///
    /// Fails with `Overflow` exactly when the value lies outside the range
    /// of `i64`; leading zeros, however many, never make it fail.
    pub fn to_dec(&self) -> (r: Result<i64, TernaryError>)
        ensures
            in_i64(value(self@)) ==> r == Ok::<i64, TernaryError>(value(self@) as i64),
            !in_i64(value(self@)) ==> r == Err::<i64, TernaryError>(TernaryError::Overflow),
    {
        let n = self.digits.len();
        let mut acc: i64 = 0;
        let mut i: usize = 0;
        while i < n
            invariant
                n == self.digits.len(),
                i <= n,
                acc == value(self.digits@.take(i as int)),
            decreases n - i,
        {
            let next: i128 = (acc as i128) * 3 + (self.digits[i].to_i8() as i128);
            proof {
                let prefix = self.digits@.take(i as int);
                assert(self.digits@.take(i + 1) =~= prefix.push(self.digits@[i as int]));
                lemma_value_push(prefix, self.digits@[i as int]);
            }
            if next < i64::MIN as i128 || next > i64::MAX as i128 {
                proof {
                    let prefix = self.digits@.take(i + 1);
                    let rest = self.digits@.skip(i + 1);
                    assert(prefix + rest =~= self.digits@);
                    lemma_value_escapes(prefix, rest, i64::MIN as int, i64::MAX as int);
                }
                return Err(TernaryError::Overflow);
            }
            acc = next as i64;
            i += 1;
        }
        assert(self.digits@.take(n as int) =~= self.digits@);
        Ok(acc)
    }

    /// The value of a number of at most 40 digits, which always fits an
    /// `i64`.
    pub(crate) fn short_value(&self) -> (r: i64)
        requires
            self@.len() <= 40,
        ensures
            r == value(self@),
    {
        let n = self.digits.len();
        let mut acc: i64 = 0;
        let mut i: usize = 0;
        while i < n
            invariant
                n == self.digits.len(),
                i <= n <= 40,
                acc == value(self.digits@.take(i as int)),
            decreases n - i,
        {
            proof {
                let prefix = self.digits@.take(i as int);
                let next = self.digits@.take(i + 1);
                assert(next =~= prefix.push(self.digits@[i as int]));
                lemma_value_push(prefix, self.digits@[i as int]);
                lemma_value_fits(prefix);
                lemma_value_fits(next);
                lemma_fits_monotonic(value(prefix), i as nat, 39);
                lemma_fits_monotonic(value(next), (i + 1) as nat, 40);
                lemma_pow3_40();
            }
            acc = acc * 3 + (self.digits[i].to_i8() as i64);
            i += 1;
        }
        assert(self.digits@.take(n as int) =~= self.digits@);
        acc
    }

    /// The shortest balanced ternary writing of `magnitude`.
    ///
    /// The number is written in the ordinary base 3 first. Its digits are
    /// then swept from the least significant one with a carry: 0 and 1
    /// stay, 2 becomes `-` and carries 1, 3 becomes `0` and carries 1; a
    /// carry left at the end becomes a leading `+`.
    fn from_magnitude(magnitude: u64) -> (r: Ternary)
        ensures
            value(r@) == magnitude,
            canonical(r@),
    {
        let unbalanced = unsigned_digits(magnitude, 3);
        let ghost all = radix_digits(magnitude as nat, 3);
        let n = unbalanced.len();
        let mut reversed: Vec<Digit> = Vec::new();
        let mut carry: u32 = 0;
        let mut i: usize = n;
        let ghost mut rest: nat = magnitude as nat;
        proof {
            lemma_radix_digits(magnitude as nat, 3);
            assert(all.take(n as int) =~= all);
            assert(reversed@.reverse() =~= Seq::<Digit>::empty());
            assert((0 + rest) * pow3(0) == rest) by (nonlinear_arith)
                requires
                    pow3(0) == 1,
            ;
        }
        while i > 0
            invariant
                n == unbalanced@.len(),
                n == all.len(),
                i <= n,
                carry <= 1,
                forall|j: int| 0 <= j < n ==> #[trigger] unbalanced@[j] as nat == all[j],
                forall|j: int| 0 <= j < n ==> #[trigger] all[j] < 3,
                i > 0 ==> all.take(i as int) == radix_digits(rest, 3),
                i == 0 ==> rest == 0,
                magnitude > 0 && i > 0 ==> rest > 0,
                reversed@.len() == n - i,
                magnitude == value(reversed@.reverse()) + (carry + rest) * pow3((n - i) as nat),
                magnitude > 0 && i == 0 ==> carry == 1 || reversed@.last() == Digit::Pos,
            decreases i,
        {
            i -= 1;
            let sum: u32 = unbalanced[i] + carry;
            let ghost carry_before = carry;
            let ghost rest_before = rest;
            let ghost low = reversed@.reverse();
            proof {
                lemma_radix_digits(rest, 3);
                assert(all.take(i + 1).last() == all[i as int]);
                assert(all.take(i + 1).drop_last() =~= all.take(i as int));
                rest = rest / 3;
            }
            let digit = if sum == 0 {
                carry = 0;
                Digit::Zero
            } else if sum == 1 {
                carry = 0;
                Digit::Pos
            } else if sum == 2 {
                carry = 1;
                Digit::Neg
            } else {
                carry = 1;
                Digit::Zero
            };
            reversed.push(digit);
            proof {
                assert(reversed@.reverse() =~= seq![digit] + low);
                lemma_sweep_step(
                    low,
                    digit,
                    carry_before + rest_before,
                    carry + rest,
                    magnitude as int,
                );
            }
        }
        let ghost low = reversed@.reverse();
        if carry == 1 {
            reversed.push(Digit::Pos);
            proof {
                assert(reversed@.reverse() =~= seq![Digit::Pos] + low);
                lemma_sweep_step(low, Digit::Pos, 1, 0, magnitude as int);
            }
        }
        proof {
            let p = pow3(reversed@.len()) as int;
            assert(0 * p == 0) by (nonlinear_arith);
        }
        Ternary { digits: reverse_digits(&reversed) }
    }

    /// The shortest balanced ternary writing of `dec`; it exists for every
    /// `i64`, the smallest one included.
    ///
    /// The absolute value is written first, as a sweep with a carry over
    /// its digits in the ordinary base 3; for a negative number every digit
    /// is then negated.
    pub fn from_dec(dec: i64) -> (r: Ternary)
        ensures
            r@ == balanced(dec as int),
            value(r@) == dec,
            canonical(r@),
    {
        let magnitude: u64 = if dec < 0 {
            (-(dec as i128)) as u64
        } else {
            dec as u64
        };
        let positive = Self::from_magnitude(magnitude);
        let r = if dec < 0 {
            proof {
                lemma_value_negated(positive@);
            }
            positive.neg()
        } else {
            positive
        };
        proof {
            lemma_balanced_unique(r@);
        }
        r
    }

    /// The value of the number written in the ordinary base 3, with the
    /// digits 0, 1 and 2 and a leading `-` for a negative value.
    ///
    /// Fails with `Overflow` exactly when the value lies outside the range
    /// of `i64`.
    pub fn to_unbalanced(&self) -> (r: Result<String, TernaryError>)
        ensures
            r.is_ok() == in_i64(value(self@)),
            match r {
                Ok(text) => text@ == radix_text(value(self@), 3),
                Err(e) => e == TernaryError::Overflow,
            },
    {
        match self.to_dec() {
            Ok(dec) => Ok(format_radix(dec, 3)),
            Err(e) => Err(e),
        }
    }

    /// Reads a number written in the ordinary base 3, an optional `-`
    /// followed by one or more of the digits `0`, `1` and `2`, and gives
    /// its shortest balanced ternary writing.
    ///
    /// Fails with `Parse` on any other text, and with `Overflow` on a
    /// number that is well written but outside the range of `i64`.
    pub fn from_unbalanced(unbalanced: &str) -> (r: Result<Ternary, TernaryError>)
        ensures
            r.is_ok() == (is_unbalanced_text(unbalanced@) && in_i64(unbalanced_value(unbalanced@))),
            match r {
                Ok(t) => t@ == balanced(unbalanced_value(unbalanced@)),
                Err(TernaryError::Overflow) => is_unbalanced_text(unbalanced@),
                Err(TernaryError::Parse(e)) => !is_unbalanced_text(unbalanced@)
                    && unbalanced_failure(unbalanced@, e),
                Err(_) => false,
            },
    {
        match parse_base3(unbalanced) {
            Ok(dec) => Ok(Ternary::from_dec(dec)),
            Err(e) => Err(e),
        }
    }

    /// The number with each digit negated, which is the number of the
    /// opposite value.
    pub fn neg(&self) -> (r: Ternary)
        ensures
            r@ == negated(self@),
    {
        let r = self.each(Digit::neg);
        assert(r@ =~= negated(self@));
        r
    }

    /// The number without its leading zeros. A number made of zeros only,
    /// or of no digit at all, becomes the single digit `0`: the result is
    /// never empty.
    pub fn trim(&self) -> (r: Ternary)
        ensures
            r@ == trimmed(self@),
    {
        let n = self.digits.len();
        let mut k: usize = 0;
        while k < n && self.digits[k] == Digit::Zero
            invariant
                k <= n,
                n == self.digits.len(),
                forall|i: int| 0 <= i < k ==> self.digits@[i] == Digit::Zero,
            decreases n - k,
        {
            k += 1;
        }
        proof {
            lemma_leading_zeros_is(self@, k as nat);
        }
        if k == n {
            let mut zero: Vec<Digit> = Vec::new();
            zero.push(Digit::Zero);
            assert(zero@ =~= seq![Digit::Zero]);
            return Ternary { digits: zero };
        }
        let digits = copy_digits(self.digits.as_slice(), k, n);
        assert(digits@ =~= self@.skip(k as int));
        Ternary { digits }
    }

    /// The number with zeros added on the left until it has `length`
    /// digits. A number that already has that many digits or more is
    /// returned as it is: nothing is ever cut off.
    pub fn with_length(&self, length: usize) -> (r: Ternary)
        ensures
            r@ == padded(self@, length as nat),
    {
        let n = self.digits.len();
        if length < n {
            return self.clone();
        }
        let mut digits: Vec<Digit> = Vec::new();
        let mut i: usize = 0;
        while i < length - n
            invariant
                n <= length,
                i <= length - n,
                digits@ == zeros(i as nat),
            decreases length - n - i,
        {
            digits.push(Digit::Zero);
            assert(digits@ =~= zeros((i + 1) as nat));
            i += 1;
        }
        let mut j: usize = 0;
        while j < n
            invariant
                n == self.digits.len(),
                j <= n,
                digits@ == zeros((length - n) as nat) + self.digits@.take(j as int),
            decreases n - j,
        {
            digits.push(self.digits[j]);
            assert(self.digits@.take(j + 1) =~= self.digits@.take(j as int).push(
                self.digits@[j as int],
            ));
            assert(digits@ =~= zeros((length - n) as nat) + self.digits@.take(j + 1));
            j += 1;
        }
        assert(self.digits@.take(n as int) =~= self.digits@);
        assert(zeros(0) + self@ =~= self@);
        Ternary { digits }
    }

    /// The text that writes each digit with the character that `transform`
    /// gives for it, in order.
    pub fn to_string_repr<F: Fn(&Digit) -> char>(&self, transform: F) -> (r: String)
        requires
            forall|i: int|
                0 <= i < self@.len() ==> call_requires(transform, (&#[trigger] self@[i],)),
        ensures
            r@.len() == self@.len(),
            forall|i: int|
                0 <= i < self@.len() ==> call_ensures(transform, (&self@[i],), #[trigger] r@[i]),
    {
        assert(self@ == self.digits@);
        let mut text = String::new();
        let n = self.digits.len();
        let mut i: usize = 0;
        while i < n
            invariant
                n == self.digits.len(),
                i <= n,
                text@.len() == i,
                forall|j: int|
                    0 <= j < n ==> call_requires(transform, (&#[trigger] self.digits@[j],)),
                forall|j: int|
                    0 <= j < i ==> call_ensures(
                        transform,
                        (&self.digits@[j],),
                        #[trigger] text@[j],
                    ),
            decreases n - i,
        {
            let c = transform(&self.digits[i]);
            text.push(c);
            i += 1;
        }
        text
    }

    /// The text of the number: `-`, `0` or `+` for each digit, the most
    /// significant one first.
    pub fn to_string(&self) -> (r: String)
        ensures
            r@ == text_of_digits(self@),
    {
        let text = self.to_string_repr(Digit::to_char);
        assert(text@ =~= text_of_digits(self@));
        text
    }

    /// The digits of `self` followed by those of `other`. This joins the
    /// two sequences; it is no addition.
    pub fn concat(&self, other: &Ternary) -> (r: Ternary)
        ensures
            r@ == self@ + other@,
    {
        let mut digits = copy_digits(self.digits.as_slice(), 0, self.digits.len());
        let n = other.digits.len();
        let mut j: usize = 0;
        while j < n
            invariant
                n == other.digits.len(),
                j <= n,
                digits@ == self.digits@ + other.digits@.take(j as int),
            decreases n - j,
        {
            digits.push(other.digits[j]);
            assert(other.digits@.take(j + 1) =~= other.digits@.take(j as int).push(
                other.digits@[j as int],
            ));
            assert(digits@ =~= self.digits@ + other.digits@.take(j + 1));
            j += 1;
        }
        assert(other.digits@.take(n as int) =~= other.digits@);
        assert(self.digits@.subrange(0, self.digits@.len() as int) =~= self.digits@);
        Ternary { digits }
    }
}

impl DigitOperate for Ternary {
    open spec fn digits(&self) -> Seq<Digit> {
        self@
    }

    fn to_digits(&self) -> (r: Vec<Digit>) {
        let r = copy_digits(self.digits.as_slice(), 0, self.digits.len());
        assert(self.digits@.subrange(0, self.digits@.len() as int) =~= self.digits@);
        r
    }

    fn digit(&self, index: usize) -> (r: Option<Digit>) {
        match self.get_digit(index) {
            Some(d) => Some(*d),
            None => None,
        }
    }

    fn each<F: Fn(Digit) -> Digit>(&self, f: F) -> (r: Self) {
        assert(self.digits() == self.digits@);
        let n = self.digits.len();
        let mut digits: Vec<Digit> = Vec::new();
        let mut i: usize = 0;
        while i < n
            invariant
                n == self.digits.len(),
                i <= n,
                digits@.len() == i,
                forall|j: int| 0 <= j < n ==> call_requires(f, (#[trigger] self.digits@[j],)),
                forall|j: int|
                    0 <= j < i ==> call_ensures(f, (self.digits@[j],), #[trigger] digits@[j]),
            decreases n - i,
        {
            digits.push(f(self.digits[i]));
            i += 1;
        }
        Ternary { digits }
    }

    fn each_with<F: Fn(Digit, Digit) -> Digit>(&self, f: F, other: Digit) -> (r: Self) {
        assert(self.digits() == self.digits@);
        let n = self.digits.len();
        let mut digits: Vec<Digit> = Vec::new();
        let mut i: usize = 0;
        while i < n
            invariant
                n == self.digits.len(),
                i <= n,
                digits@.len() == i,
                forall|j: int| 0 <= j < n ==> call_requires(f, (#[trigger] self.digits@[j], other)),
                forall|j: int|
                    0 <= j < i ==> call_ensures(f, (self.digits@[j], other), #[trigger] digits@[j]),
            decreases n - i,
        {
            digits.push(f(self.digits[i], other));
            i += 1;
        }
        Ternary { digits }
    }

    fn each_zip<F: Fn(Digit, Digit) -> Digit>(&self, f: F, other: Self) -> (r: Self)
        decreases
                (if self@.len() < other@.len() {
                    1nat
                } else {
                    0nat
                }),
    {
        let ghost long = longer(self.digits(), other.digits());
        let ghost short = shorter_padded(self.digits(), other.digits());
        let n = self.digits.len();
        if n < other.digits.len() {
            let swapped = self.clone();
            assert(longer(other.digits(), swapped.digits()) == long);
            assert(shorter_padded(other.digits(), swapped.digits()) == short);
            return other.each_zip(f, swapped);
        }
        let aligned = other.with_length(n);
        assert(self.digits@ == long && aligned.digits@ == short);
        let mut reversed: Vec<Digit> = Vec::new();
        let mut i: usize = 0;
        while i < n
            invariant
                n == self.digits.len(),
                n == aligned.digits.len(),
                i <= n,
                reversed@.len() == i,
                forall|j: int|
                    0 <= j < n ==> call_requires(
                        f,
                        (#[trigger] self.digits@[j], aligned.digits@[j]),
                    ),
                forall|j: int|
                    0 <= j < i ==> call_ensures(
                        f,
                        (self.digits@[n - 1 - j], aligned.digits@[n - 1 - j]),
                        #[trigger] reversed@[j],
                    ),
            decreases n - i,
        {
            let digit = f(self.digits[n - 1 - i], aligned.digits[n - 1 - i]);
            reversed.push(digit);
            i += 1;
        }
        let digits = reverse_digits(&reversed);
        assert forall|p: int| 0 <= p < n implies call_ensures(
            f,
            (self.digits@[p], aligned.digits@[p]),
            #[trigger] digits@[p],
        ) by {
            assert(digits@[p] == reversed@[n - 1 - p]);
        }
        Ternary { digits }
    }

    fn each_zip_carry<F: Fn(Digit, Digit, Digit) -> (Digit, Digit)>(&self, f: F, other: Self) -> (r:
        Self)
        decreases
                (if self@.len() < other@.len() {
                    1nat
                } else {
                    0nat
                }),
    {
        let ghost long = longer(self.digits(), other.digits());
        let ghost short = shorter_padded(self.digits(), other.digits());
        let n = self.digits.len();
        if n < other.digits.len() {
            let swapped = self.clone();
            assert(longer(other.digits(), swapped.digits()) == long);
            assert(shorter_padded(other.digits(), swapped.digits()) == short);
            let r = other.each_zip_carry(f, swapped);
            proof {
                let carries = choose|carries: Seq<Digit>|
                    carry_chain(f, other@, padded(self@, other@.len()), r@, carries);
                assert(carry_chain(
                    f,
                    longer(self.digits(), other.digits()),
                    shorter_padded(self.digits(), other.digits()),
                    r.digits(),
                    carries,
                ));
            }
            return r;
        }
        let aligned = other.with_length(n);
        assert(self.digits@ == long && aligned.digits@ == short);
        let mut reversed: Vec<Digit> = Vec::new();
        let mut carry = Digit::Zero;
        let ghost mut carries: Seq<Digit> = seq![Digit::Zero];
        let mut i: usize = 0;
        while i < n
            invariant
                n == self.digits.len(),
                n == aligned.digits.len(),
                i <= n,
                reversed@.len() == i,
                carries.len() == i + 1,
                carries[0] == carry,
                carries[i as int] == Digit::Zero,
                forall|j: int, c: Digit|
                    0 <= j < n ==> #[trigger] call_requires(
                        f,
                        (self.digits@[j], aligned.digits@[j], c),
                    ),
                forall|j: int|
                    0 <= j < i ==> call_ensures(
                        f,
                        (self.digits@[n - 1 - j], aligned.digits@[n - 1 - j], carries[i - j]),
                        (carries[i - j - 1], #[trigger] reversed@[j]),
                    ),
            decreases n - i,
        {
            let ghost before = carries;
            let (next, digit) = f(self.digits[n - 1 - i], aligned.digits[n - 1 - i], carry);
            carry = next;
            reversed.push(digit);
            proof {
                carries = seq![next] + before;
                assert forall|j: int| 0 <= j < i + 1 implies call_ensures(
                    f,
                    (self.digits@[n - 1 - j], aligned.digits@[n - 1 - j], carries[i + 1 - j]),
                    (carries[i + 1 - j - 1], #[trigger] reversed@[j]),
                ) by {
                    if j < i {
                        assert(carries[i + 1 - j] == before[i - j]);
                        assert(carries[i + 1 - j - 1] == before[i - j - 1]);
                    }
                }
            }
            i += 1;
        }
        let digits = reverse_digits(&reversed);
        proof {
            assert forall|p: int| 0 <= p < n implies call_ensures(
                f,
                (self.digits@[p], aligned.digits@[p], carries[p + 1]),
                (carries[p], #[trigger] digits@[p]),
            ) by {
                let j = n - 1 - p;
                assert(digits@[p] == reversed@[j]);
                assert(carries[n - j] == carries[p + 1]);
            }
        }
        let r = Ternary { digits };
        assert(carry_chain(
            f,
            longer(self.digits(), other.digits()),
            shorter_padded(self.digits(), other.digits()),
            r.digits(),
            carries,
        ));
        r
    }
}

} // verus!
