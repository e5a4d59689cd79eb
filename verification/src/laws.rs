//! What holds of the library as a whole, proved from the model.
//!
//! Each law is a proof function over the functions of [`crate::model`],
//! which are the functions that the contracts of the executable code are
//! stated with. A law therefore holds of whatever the executable functions
//! return.

use crate::digit::Digit;
use crate::lemmas::{
    lemma_balanced, lemma_balanced_unique, lemma_fits_monotonic, lemma_leading_zeros,
    lemma_pow3_monotonic, lemma_split_significant, lemma_trimmed, lemma_trimmed_canonical,
    lemma_value_concat, lemma_value_fits, lemma_value_leading, lemma_value_negated,
    lemma_value_padded, lemma_value_push, lemma_value_single, lemma_value_zeros,
};
use crate::model::{
    balanced, canonical, digits_of_text, fits, is_digit_text, negated, padded, pow3, significant,
    significant_len, text_of_digits, trimmed, value, zeros, zipped,
};
use crate::text::{
    base3_value, is_base3_char, is_unbalanced_text, lemma_radix_digits, radix_char, radix_digits,
    radix_text, unbalanced_body, unbalanced_value,
};
use vstd::prelude::*;

verus! {

/// The value of a number is the sum of its digits, each weighted by the
/// power of 3 of its position counted from the right: zeros are worth 0,
/// and replacing the digit at index `i` of `n` digits by another changes
/// the value by the difference of the two digits times `3^(n - 1 - i)`.
pub proof fn law_positional_value(s: Seq<Digit>, i: int, d: Digit)
    requires
        0 <= i < s.len(),
    ensures
        value(zeros(s.len())) == 0,
        value(s.update(i, d)) - value(s) == (d.to_int() - s[i].to_int()) * pow3(
            (s.len() - 1 - i) as nat,
        ),
{
    lemma_value_zeros(s.len());
    let before = s.take(i);
    let after = s.skip(i + 1);
    let p = pow3(after.len()) as int;
    assert(s =~= before.push(s[i]) + after);
    assert(s.update(i, d) =~= before.push(d) + after);
    lemma_value_concat(before.push(s[i]), after);
    lemma_value_concat(before.push(d), after);
    lemma_value_push(before, s[i]);
    lemma_value_push(before, d);
    let high = 3 * value(before);
    assert((high + d.to_int()) * p - (high + s[i].to_int()) * p == (d.to_int() - s[i].to_int()) * p)
        by (nonlinear_arith);
}

/// Writing an integer in balanced ternary and reading the value back gives
/// the integer: `Ternary::from_dec` followed by `Ternary::to_dec` is the
/// identity. The writing is the shortest one.
pub proof fn law_decimal_round_trip(n: int)
    ensures
        value(balanced(n)) == n,
        canonical(balanced(n)),
{
    lemma_balanced(n);
}

/// Reading the value of a number and writing it anew gives the number
/// without its leading zeros: `Ternary::to_dec` followed by
/// `Ternary::from_dec` is `Ternary::trim`.
pub proof fn law_value_round_trip(s: Seq<Digit>)
    ensures
        balanced(value(s)) == trimmed(s),
{
    lemma_trimmed(s);
    lemma_balanced_unique(trimmed(s));
}

/// Two numbers have one value exactly when they differ in their leading
/// zeros only.
pub proof fn law_equal_values(a: Seq<Digit>, b: Seq<Digit>)
    ensures
        value(a) == value(b) <==> trimmed(a) == trimmed(b),
{
    law_value_round_trip(a);
    law_value_round_trip(b);
    lemma_trimmed(a);
    lemma_trimmed(b);
}

/// Reading a text of digits and writing the number gives the text again,
/// leading zeros included: `Ternary::parse` followed by
/// `Ternary::to_string` is the identity on every text that `parse`
/// accepts.
pub proof fn law_text_round_trip(text: Seq<char>)
    requires
        is_digit_text(text),
    ensures
        text_of_digits(digits_of_text(text)) == text,
{
    assert(text_of_digits(digits_of_text(text)) =~= text);
}

/// Writing a number and reading the text gives the number again:
/// `Ternary::to_string` followed by `Ternary::parse` succeeds and is the
/// identity.
pub proof fn law_digits_round_trip(s: Seq<Digit>)
    ensures
        is_digit_text(text_of_digits(s)),
        digits_of_text(text_of_digits(s)) == s,
{
    assert(digits_of_text(text_of_digits(s)) =~= s);
}

/// Negating a number twice gives the number again, and negating it once
/// gives the number of the opposite value.
pub proof fn law_negation(s: Seq<Digit>)
    ensures
        negated(negated(s)) == s,
        value(negated(negated(s))) == value(s),
        value(negated(s)) == -value(s),
{
    assert(negated(negated(s)) =~= s);
    lemma_value_negated(s);
}

/// The sum of two digits is one of `-+`, `-`, `0`, `+` and `+-`, namely
/// the shortest writing of the sum of their values; it does not depend on
/// the order of the digits, and the difference is the sum with the negated
/// digit.
pub proof fn law_digit_sum(a: Digit, b: Digit)
    ensures
        a.spec_add(b) == balanced(a.to_int() + b.to_int()),
        value(a.spec_add(b)) == a.to_int() + b.to_int(),
        a.spec_add(b) == seq![Digit::Neg, Digit::Pos] || a.spec_add(b) == seq![Digit::Neg]
            || a.spec_add(b) == seq![Digit::Zero] || a.spec_add(b) == seq![Digit::Pos]
            || a.spec_add(b) == seq![Digit::Pos, Digit::Neg],
        a.spec_add(b) == b.spec_add(a),
        a.spec_sub(b) == a.spec_add(b.spec_neg()),
        value(a.spec_sub(b)) == a.to_int() - b.to_int(),
{
    let sum = a.spec_add(b);
    if sum.len() == 1 {
        assert(sum =~= seq![sum[0]]);
        lemma_value_single(sum[0]);
    } else {
        assert(sum =~= seq![sum[0]].push(sum[1]));
        lemma_value_single(sum[0]);
        lemma_value_push(seq![sum[0]], sum[1]);
    }
    lemma_balanced_unique(sum);
    assert(a.spec_add(b) =~= b.spec_add(a));
    assert(a.spec_sub(b) =~= a.spec_add(b.spec_neg()));
    let difference = a.spec_sub(b);
    if difference.len() == 1 {
        assert(difference =~= seq![difference[0]]);
        lemma_value_single(difference[0]);
    } else {
        assert(difference =~= seq![difference[0]].push(difference[1]));
        lemma_value_single(difference[0]);
        lemma_value_push(seq![difference[0]], difference[1]);
    }
}

/// The product of two digits does not depend on their order, is `Zero` as
/// soon as one of them is, and has the product of their values as its
/// value.
pub proof fn law_digit_product(a: Digit, b: Digit)
    ensures
        a.spec_mul(b) == b.spec_mul(a),
        a.spec_mul(Digit::Zero) == Digit::Zero,
        Digit::Zero.spec_mul(a) == Digit::Zero,
        a.spec_mul(b).to_int() == a.to_int() * b.to_int(),
{
}

/// Conjunction and disjunction of two digits are the smaller and the larger
/// of the two; neither depends on the order of its operands.
pub proof fn law_conjunction_disjunction(a: Digit, b: Digit)
    ensures
        a.spec_bitand(b).to_int() == vstd::math::min(a.to_int(), b.to_int()),
        a.spec_bitor(b).to_int() == vstd::math::max(a.to_int(), b.to_int()),
        a.spec_bitand(b) == b.spec_bitand(a),
        a.spec_bitor(b) == b.spec_bitor(a),
        a.spec_bitxor(b) == b.spec_bitxor(a),
{
}

/// An operation applied position by position gets the digit of the longer
/// number first. For numbers of different lengths the result is therefore
/// the same whichever of them the operation is called on; for numbers of
/// one length, and so for all numbers, it is the same if the operation on
/// digits does not depend on the order of its operands.
pub proof fn law_zip_order(a: Seq<Digit>, b: Seq<Digit>, op: spec_fn(Digit, Digit) -> Digit)
    ensures
        zipped(a, b, op).len() == if a.len() < b.len() {
            b.len()
        } else {
            a.len()
        },
        a.len() != b.len() ==> zipped(a, b, op) == zipped(b, a, op),
        (forall|x: Digit, y: Digit| #[trigger] op(x, y) == op(y, x)) ==> zipped(a, b, op) == zipped(
            b,
            a,
            op,
        ),
{
    if a.len() != b.len() {
        assert(zipped(a, b, op) =~= zipped(b, a, op));
    }
    if forall|x: Digit, y: Digit| #[trigger] op(x, y) == op(y, x) {
        assert(zipped(a, b, op) =~= zipped(b, a, op));
    }
}

/// Trimming a number twice is trimming it once; the trimmed number is
/// never empty, has the value of the number, and is its shortest writing.
pub proof fn law_trim(s: Seq<Digit>)
    ensures
        trimmed(trimmed(s)) == trimmed(s),
        trimmed(s).len() >= 1,
        value(trimmed(s)) == value(s),
        canonical(trimmed(s)),
{
    lemma_trimmed(s);
    lemma_trimmed_canonical(trimmed(s));
}

/// Extending a number by zeros on the left keeps its value and its
/// significant digits; a number that is long enough is not changed at
/// all, and none is ever cut.
pub proof fn law_padding(s: Seq<Digit>, n: nat)
    ensures
        value(padded(s, n)) == value(s),
        n <= s.len() ==> padded(s, n) == s,
        padded(s, n).len() == if n <= s.len() {
            s.len()
        } else {
            n
        },
        trimmed(padded(s, n)) == trimmed(s),
{
    lemma_value_padded(s, n);
    law_equal_values(padded(s, n), s);
}

/// The significant digits of a number are at most `n` exactly when its
/// value can be written with `n` digits. Where they are, the number made
/// of them and of zeros on the left up to `n` digits, which is what
/// `Tryte::from_ternary` stores, has the value of the number, and is the
/// number itself if that has `n` digits.
pub proof fn law_fixed_width(s: Seq<Digit>, n: nat)
    ensures
        significant_len(s) <= n <==> fits(value(s), n),
        significant_len(s) <= n ==> padded(significant(s), n).len() == n,
        significant_len(s) <= n ==> value(padded(significant(s), n)) == value(s),
        s.len() == n ==> padded(significant(s), n) == s,
{
    lemma_split_significant(s);
    lemma_leading_zeros(s);
    let digits = significant(s);
    lemma_value_fits(digits);
    lemma_pow3_monotonic(0, n);
    if digits.len() > 0 {
        lemma_value_leading(digits);
        if digits.len() <= n {
            lemma_fits_monotonic(value(s), digits.len(), n);
        } else if fits(value(s), n) {
            lemma_fits_monotonic(value(s), n, (digits.len() - 1) as nat);
        }
    }
    lemma_value_padded(digits, n);
    if s.len() == n {
        assert(padded(digits, n) =~= s);
    }
}

/// The text of `n` in base 3.
spec fn base3_text(n: nat) -> Seq<char> {
    Seq::new(radix_digits(n, 3).len(), |i: int| radix_char(radix_digits(n, 3)[i]))
}

/// The characters that write `n` in base 3 are digits of base 3 and stand
/// for `n`.
proof fn lemma_base3_text(n: nat)
    ensures
        base3_text(n).len() >= 1,
        forall|i: int| 0 <= i < base3_text(n).len() ==> is_base3_char(#[trigger] base3_text(n)[i]),
        base3_value(base3_text(n)) == n,
    decreases n,
{
    let body = base3_text(n);
    lemma_radix_digits(n, 3);
    assert(body.last() == radix_char(n % 3));
    assert(body.last() as nat == n % 3 + 48);
    if n >= 3 {
        lemma_base3_text(n / 3);
        assert(body.drop_last() =~= base3_text(n / 3));
        assert(base3_value(body) == 3 * base3_value(base3_text(n / 3)) + n % 3);
    } else {
        assert(body.drop_last() =~= Seq::<char>::empty());
        assert(base3_value(body.drop_last()) == 0);
    }
}

/// Writing an integer in the ordinary base 3 gives a text that reads as
/// that integer: what `Ternary::to_unbalanced` returns,
/// `Ternary::from_unbalanced` accepts and turns back into the shortest
/// writing of the same value.
pub proof fn law_unbalanced_round_trip(v: int)
    ensures
        is_unbalanced_text(radix_text(v, 3)),
        unbalanced_value(radix_text(v, 3)) == v,
{
    let n = vstd::math::abs(v);
    let body = base3_text(n);
    lemma_base3_text(n);
    let text = radix_text(v, 3);
    if v < 0 {
        assert(text =~= seq!['-'] + body);
        assert(text[0] == '-');
        assert(unbalanced_body(text) =~= body);
    } else {
        assert(text =~= body);
        assert(is_base3_char(text[0]));
        assert(unbalanced_body(text) =~= body);
    }
}

} // verus!
