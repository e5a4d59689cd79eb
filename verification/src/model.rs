//! The mathematical model of digit sequences: what a sequence of digits is
//! worth, and the sequences that the operations of this crate produce.
//!
//! A sequence lists its digits from the most significant to the least
//! significant one. Contracts throughout the crate are stated over the
//! functions of this module.

use crate::digit::{digit_of_char, is_digit_char, Digit};
use crate::error::ParseTernaryError;
use vstd::prelude::*;

verus! {

/// The power `3^n`.
pub open spec fn pow3(n: nat) -> nat
    decreases n,
{
    if n == 0 {
        1
    } else {
        3 * pow3((n - 1) as nat)
    }
}

/// The number that a sequence of digits stands for: the sum of each digit's
/// value times the power of 3 of its position, the last digit having
/// position 0. It is three times the number that the digits before the
/// last stand for, plus the value of the last digit; the empty sequence
/// stands for 0.
pub open spec fn value(s: Seq<Digit>) -> int
    decreases s.len(),
{
    if s.len() == 0 {
        0
    } else {
        3 * value(s.drop_last()) + s.last().to_int()
    }
}

/// Whether `v` can be written with `n` digits, that is whether
/// `|v| <= (3^n - 1) / 2`.
pub open spec fn fits(v: int, n: nat) -> bool {
    -(pow3(n) as int) < 2 * v < pow3(n) as int
}

/// The last digit of every balanced ternary writing of `v`: the digit whose
/// value differs from `v` by a multiple of 3.
pub open spec fn low_digit(v: int) -> Digit {
    if v % 3 == 0 {
        Digit::Zero
    } else if v % 3 == 1 {
        Digit::Pos
    } else {
        Digit::Neg
    }
}

/// The last `n` digits of the balanced ternary writing of `v`. Where `v`
/// fits `n` digits, this is the one sequence of `n` digits whose value is
/// `v`.
pub open spec fn fixed_digits(v: int, n: nat) -> Seq<Digit>
    decreases n,
{
    if n == 0 {
        Seq::empty()
    } else {
        fixed_digits((v - low_digit(v).to_int()) / 3, (n - 1) as nat).push(low_digit(v))
    }
}

/// The shortest balanced ternary writing of `n`: the single digit `0` for
/// 0, and else the writing of the nearest third of `n` followed by the last
/// digit of `n`.
pub open spec fn balanced(n: int) -> Seq<Digit>
    decreases vstd::math::abs(n),
{
    if -1 <= n <= 1 {
        seq![low_digit(n)]
    } else {
        balanced((n - low_digit(n).to_int()) / 3).push(low_digit(n))
    }
}

/// Whether `v` is the value of some `i64`.
pub open spec fn in_i64(v: int) -> bool {
    i64::MIN <= v <= i64::MAX
}

/// The sequence of `n` digits `Zero`.
pub open spec fn zeros(n: nat) -> Seq<Digit> {
    Seq::new(n, |i: int| Digit::Zero)
}

/// The number of digits `Zero` that a sequence starts with.
pub open spec fn leading_zeros(s: Seq<Digit>) -> nat
    decreases s.len(),
{
    if s.len() > 0 && s[0] == Digit::Zero {
        1 + leading_zeros(s.drop_first())
    } else {
        0
    }
}

/// The number of digits that are left of a sequence once its leading zeros
/// are dropped; 0 for a sequence of zeros only.
pub open spec fn significant_len(s: Seq<Digit>) -> nat {
    (s.len() - leading_zeros(s)) as nat
}

/// The digits of a sequence from its first non-zero digit on.
pub open spec fn significant(s: Seq<Digit>) -> Seq<Digit> {
    s.skip(leading_zeros(s) as int)
}

/// A sequence without its leading zeros, but never empty: a sequence of
/// zeros only, the empty one included, becomes the single digit `Zero`.
pub open spec fn trimmed(s: Seq<Digit>) -> Seq<Digit> {
    if leading_zeros(s) == s.len() {
        seq![Digit::Zero]
    } else {
        significant(s)
    }
}

/// Whether a sequence is the shortest way to write its value: it is not
/// empty and starts with `Zero` only if it is the single digit `Zero`.
pub open spec fn canonical(s: Seq<Digit>) -> bool {
    s.len() >= 1 && (s.len() == 1 || s[0] != Digit::Zero)
}

/// A sequence extended by zeros on the left up to the length `n`; a
/// sequence that is already that long stays as it is.
pub open spec fn padded(s: Seq<Digit>, n: nat) -> Seq<Digit> {
    if s.len() >= n {
        s
    } else {
        zeros((n - s.len()) as nat) + s
    }
}

/// The length that a number of `n` digits is extended to before it is cut
/// into chunks of five digits: the next multiple of five above `n`. A
/// number whose length is a multiple of five already gets one more chunk of
/// zeros.
pub open spec fn chunked_len(n: nat) -> nat {
    (n + 5 - n % 5) as nat
}

/// The sequence with each digit negated.
pub open spec fn negated(s: Seq<Digit>) -> Seq<Digit> {
    Seq::new(s.len(), |i: int| s[i].spec_neg())
}

/// The digit at `index` counted from the right, 0 being the least
/// significant digit, if the sequence is that long.
pub open spec fn digit_from_right(s: Seq<Digit>, index: nat) -> Option<Digit> {
    if index < s.len() {
        Some(s[s.len() - 1 - index])
    } else {
        None
    }
}

/// Whether every character of a text stands for a digit.
pub open spec fn is_digit_text(text: Seq<char>) -> bool {
    forall|i: int| 0 <= i < text.len() ==> is_digit_char(#[trigger] text[i])
}

/// Whether `e` tells where a text stops being a sequence of digits: at its
/// first character that stands for no digit.
pub open spec fn digit_text_failure(text: Seq<char>, e: ParseTernaryError) -> bool {
    &&& e.position < text.len()
    &&& e.found == Some(text[e.position as int])
    &&& !is_digit_char(text[e.position as int])
    &&& is_digit_text(text.take(e.position as int))
}

/// The digits that the characters of a text stand for.
pub open spec fn digits_of_text(text: Seq<char>) -> Seq<Digit> {
    Seq::new(text.len(), |i: int| digit_of_char(text[i]))
}

/// The text that writes a sequence of digits with `-`, `0` and `+`.
pub open spec fn text_of_digits(s: Seq<Digit>) -> Seq<char> {
    Seq::new(s.len(), |i: int| s[i].spec_to_char())
}

/// The longer of two sequences, the first one if they are equally long.
/// This is the operand that a digit-by-digit operation on two numbers
/// walks, and whose digits it hands to the operation first.
pub open spec fn longer(a: Seq<Digit>, b: Seq<Digit>) -> Seq<Digit> {
    if a.len() < b.len() {
        b
    } else {
        a
    }
}

/// The other one of two sequences, extended by zeros on the left to the
/// length of the longer one.
pub open spec fn shorter_padded(a: Seq<Digit>, b: Seq<Digit>) -> Seq<Digit> {
    if a.len() < b.len() {
        padded(a, b.len())
    } else {
        padded(b, a.len())
    }
}

/// The digits that `op` gives position by position for two sequences
/// aligned at their last digits: `op` gets the digit of the longer sequence
/// first and the digit of the padded shorter one second.
pub open spec fn zipped(a: Seq<Digit>, b: Seq<Digit>, op: spec_fn(Digit, Digit) -> Digit) -> Seq<
    Digit,
> {
    Seq::new(longer(a, b).len(), |i: int| op(longer(a, b)[i], shorter_padded(a, b)[i]))
}

/// Whether `r` can come from applying `f` to two sequences of one length
/// from right to left with a carry: `carries[p + 1]` is the carry that goes
/// into position `p` and `carries[p]` the one that comes out of it. The
/// carry into the last position is `Zero`.
pub open spec fn carry_chain<F: Fn(Digit, Digit, Digit) -> (Digit, Digit)>(
    f: F,
    a: Seq<Digit>,
    b: Seq<Digit>,
    r: Seq<Digit>,
    carries: Seq<Digit>,
) -> bool {
    &&& b.len() == a.len()
    &&& r.len() == a.len()
    &&& carries.len() == a.len() + 1
    &&& carries[a.len() as int] == Digit::Zero
    &&& forall|p: int|
        0 <= p < a.len() ==> call_ensures(
            f,
            (a[p], b[p], carries[p + 1]),
            (carries[p], #[trigger] r[p]),
        )
}

} // verus!
