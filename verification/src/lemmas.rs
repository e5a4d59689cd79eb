//! Facts about the model of digit sequences that the proofs of the
//! executable code rest on.

use crate::digit::Digit;
use crate::model::{
    balanced, canonical, fits, fixed_digits, leading_zeros, low_digit, negated, padded, pow3,
    significant, significant_len, trimmed, value, zeros,
};
use vstd::prelude::*;

verus! {

/// Powers of 3 are positive and grow with the exponent.
pub proof fn lemma_pow3_monotonic(i: nat, j: nat)
    requires
        i <= j,
    ensures
        1 <= pow3(i) <= pow3(j),
    decreases j,
{
    if j > 0 {
        if i == j {
            lemma_pow3_monotonic((i - 1) as nat, (j - 1) as nat);
        } else {
            lemma_pow3_monotonic(i, (j - 1) as nat);
        }
    }
}

/// Appending a digit triples the value and adds the digit.
pub proof fn lemma_value_push(s: Seq<Digit>, d: Digit)
    ensures
        value(s.push(d)) == 3 * value(s) + d.to_int(),
{
    assert(s.push(d).drop_last() =~= s);
}

/// The value of a single digit is the digit's own.
pub proof fn lemma_value_single(d: Digit)
    ensures
        value(seq![d]) == d.to_int(),
{
    assert(seq![d] =~= Seq::<Digit>::empty().push(d));
    lemma_value_push(Seq::<Digit>::empty(), d);
}

/// The value of a concatenation: the left part is shifted by the length of
/// the right part.
pub proof fn lemma_value_concat(a: Seq<Digit>, b: Seq<Digit>)
    ensures
        value(a + b) == value(a) * pow3(b.len()) + value(b),
    decreases b.len(),
{
    if b.len() == 0 {
        assert(a + b =~= a);
        assert(value(a) * 1 == value(a)) by (nonlinear_arith);
    } else {
        let b1 = b.drop_last();
        assert((a + b).drop_last() =~= a + b1);
        assert((a + b).last() == b.last());
        lemma_value_concat(a, b1);
        let p = pow3(b1.len()) as int;
        assert(pow3(b.len()) == 3 * p);
        assert(3 * (value(a) * p) == value(a) * (3 * p)) by (nonlinear_arith);
    }
}

/// Zeros are worth nothing.
pub proof fn lemma_value_zeros(n: nat)
    ensures
        value(zeros(n)) == 0,
    decreases n,
{
    if n > 0 {
        assert(zeros(n).drop_last() =~= zeros((n - 1) as nat));
        lemma_value_zeros((n - 1) as nat);
    }
}

/// Zeros on the left do not change the value.
pub proof fn lemma_value_padded(s: Seq<Digit>, n: nat)
    ensures
        value(padded(s, n)) == value(s),
{
    if s.len() < n {
        let k = (n - s.len()) as nat;
        lemma_value_concat(zeros(k), s);
        lemma_value_zeros(k);
    }
}

/// A sequence of `n` digits is worth at most `(3^n - 1) / 2` either way.
pub proof fn lemma_value_fits(s: Seq<Digit>)
    ensures
        fits(value(s), s.len()),
    decreases s.len(),
{
    if s.len() > 0 {
        lemma_value_fits(s.drop_last());
    }
}

/// A sequence that starts with a non-zero digit has the sign of that digit
/// and is worth at least `(3^(n-1) + 1) / 2` in that direction: it cannot be
/// written with fewer digits.
pub proof fn lemma_value_leading(s: Seq<Digit>)
    requires
        s.len() >= 1,
        s[0] != Digit::Zero,
    ensures
        s[0] == Digit::Pos ==> 2 * value(s) > pow3((s.len() - 1) as nat),
        s[0] == Digit::Neg ==> 2 * value(s) < -(pow3((s.len() - 1) as nat) as int),
        !fits(value(s), (s.len() - 1) as nat),
{
    let head = seq![s[0]];
    let rest = s.drop_first();
    assert(s =~= head + rest);
    lemma_value_concat(head, rest);
    lemma_value_single(s[0]);
    lemma_value_fits(rest);
    let p = pow3(rest.len()) as int;
    assert(1 * p == p && (-1) * p == -p) by (nonlinear_arith);
}

/// Negating every digit negates the value.
pub proof fn lemma_value_negated(s: Seq<Digit>)
    ensures
        value(negated(s)) == -value(s),
    decreases s.len(),
{
    if s.len() > 0 {
        assert(negated(s).drop_last() =~= negated(s.drop_last()));
        lemma_value_negated(s.drop_last());
    }
}

/// Two sequences of one length and one value are the same sequence.
pub proof fn lemma_unique_fixed(a: Seq<Digit>, b: Seq<Digit>)
    requires
        a.len() == b.len(),
        value(a) == value(b),
    ensures
        a == b,
    decreases a.len(),
{
    if a.len() == 0 {
        assert(a =~= b);
    } else {
        lemma_unique_fixed(a.drop_last(), b.drop_last());
        assert(a =~= a.drop_last().push(a.last()));
        assert(b =~= b.drop_last().push(b.last()));
    }
}

/// What `leading_zeros` counts: the digits before the first non-zero one.
pub proof fn lemma_leading_zeros(s: Seq<Digit>)
    ensures
        leading_zeros(s) <= s.len(),
        forall|i: int| 0 <= i < leading_zeros(s) ==> s[i] == Digit::Zero,
        leading_zeros(s) < s.len() ==> s[leading_zeros(s) as int] != Digit::Zero,
    decreases s.len(),
{
    if s.len() > 0 && s[0] == Digit::Zero {
        let t = s.drop_first();
        lemma_leading_zeros(t);
        assert forall|i: int| 0 <= i < leading_zeros(s) implies s[i] == Digit::Zero by {
            if i > 0 {
                assert(s[i] == t[i - 1]);
            }
        }
        if leading_zeros(s) < s.len() {
            assert(s[leading_zeros(s) as int] == t[leading_zeros(t) as int]);
        }
    }
}

/// The count of leading zeros is the only index before which all digits
/// are `Zero` and at which the sequence ends or has another digit.
pub proof fn lemma_leading_zeros_is(s: Seq<Digit>, k: nat)
    requires
        k <= s.len(),
        forall|i: int| 0 <= i < k ==> s[i] == Digit::Zero,
        k < s.len() ==> s[k as int] != Digit::Zero,
    ensures
        leading_zeros(s) == k,
{
    lemma_leading_zeros(s);
    let z = leading_zeros(s);
    if z < k {
        assert(s[z as int] == Digit::Zero);
    }
    if k < z {
        assert(s[k as int] == Digit::Zero);
    }
}

/// A sequence is its leading zeros followed by its significant digits.
pub proof fn lemma_split_significant(s: Seq<Digit>)
    ensures
        s == zeros(leading_zeros(s)) + significant(s),
        value(significant(s)) == value(s),
        significant(s).len() == significant_len(s),
        significant_len(s) > 0 ==> significant(s)[0] != Digit::Zero,
{
    lemma_leading_zeros(s);
    let z = leading_zeros(s);
    assert(s =~= zeros(z) + significant(s));
    lemma_value_concat(zeros(z), significant(s));
    lemma_value_zeros(z);
}

/// Trimming keeps the value and yields the shortest writing of it.
pub proof fn lemma_trimmed(s: Seq<Digit>)
    ensures
        value(trimmed(s)) == value(s),
        canonical(trimmed(s)),
        trimmed(s).len() <= s.len() || s.len() == 0,
{
    lemma_split_significant(s);
    lemma_leading_zeros(s);
    if leading_zeros(s) == s.len() {
        lemma_value_single(Digit::Zero);
        assert(significant(s) =~= Seq::<Digit>::empty());
    }
}

/// Trimming leaves a shortest writing as it is.
pub proof fn lemma_trimmed_canonical(s: Seq<Digit>)
    requires
        canonical(s),
    ensures
        trimmed(s) == s,
{
    if s[0] != Digit::Zero {
        lemma_leading_zeros_is(s, 0);
        assert(s.skip(0) =~= s);
    } else {
        lemma_leading_zeros_is(s, 1);
        assert(s =~= seq![Digit::Zero]);
    }
}

/// A shortest writing is as long as its value demands: the value fits its
/// length and, unless it is 0, no smaller one.
pub proof fn lemma_canonical_len(s: Seq<Digit>)
    requires
        canonical(s),
    ensures
        fits(value(s), s.len()),
        value(s) != 0 ==> !fits(value(s), (s.len() - 1) as nat),
        value(s) == 0 <==> s == seq![Digit::Zero],
{
    lemma_value_fits(s);
    if s[0] != Digit::Zero {
        lemma_value_leading(s);
        lemma_pow3_monotonic(0, (s.len() - 1) as nat);
    } else {
        assert(s =~= seq![Digit::Zero]);
    }
    lemma_value_single(Digit::Zero);
}

/// A value that fits `n` digits fits any larger number of digits.
pub proof fn lemma_fits_monotonic(v: int, n: nat, m: nat)
    requires
        fits(v, n),
        n <= m,
    ensures
        fits(v, m),
{
    lemma_pow3_monotonic(n, m);
}

/// Every number has one shortest writing only.
pub proof fn lemma_canonical_unique(a: Seq<Digit>, b: Seq<Digit>)
    requires
        canonical(a),
        canonical(b),
        value(a) == value(b),
    ensures
        a == b,
{
    lemma_canonical_len(a);
    lemma_canonical_len(b);
    if value(a) != 0 {
        if a.len() < b.len() {
            lemma_fits_monotonic(value(a), a.len(), (b.len() - 1) as nat);
        }
        if b.len() < a.len() {
            lemma_fits_monotonic(value(b), b.len(), (a.len() - 1) as nat);
        }
        lemma_unique_fixed(a, b);
    }
}

/// Once the value of a prefix has left a range around 0, the value of the
/// whole sequence lies outside that range on the same side.
pub proof fn lemma_value_escapes(prefix: Seq<Digit>, rest: Seq<Digit>, lo: int, hi: int)
    requires
        lo <= 0 <= hi,
    ensures
        value(prefix) > hi ==> value(prefix + rest) > hi,
        value(prefix) < lo ==> value(prefix + rest) < lo,
    decreases rest.len(),
{
    if rest.len() == 0 {
        assert(prefix + rest =~= prefix);
    } else {
        assert((prefix + rest).drop_last() =~= prefix + rest.drop_last());
        lemma_value_escapes(prefix, rest.drop_last(), lo, hi);
    }
}

/// `fixed_digits` gives `n` digits, and they write `v` where `v` fits.
pub proof fn lemma_fixed_digits(v: int, n: nat)
    ensures
        fixed_digits(v, n).len() == n,
        fits(v, n) ==> value(fixed_digits(v, n)) == v,
    decreases n,
{
    if n > 0 {
        let d = low_digit(v);
        let rest = (v - d.to_int()) / 3;
        lemma_fixed_digits(rest, (n - 1) as nat);
        lemma_value_push(fixed_digits(rest, (n - 1) as nat), d);
        lemma_pow3_odd((n - 1) as nat);
        assert(v == 3 * rest + d.to_int());
    }
}

/// Powers of 3 are odd.
pub proof fn lemma_pow3_odd(n: nat)
    ensures
        pow3(n) % 2 == 1,
    decreases n,
{
    if n > 0 {
        lemma_pow3_odd((n - 1) as nat);
    }
}

/// A sequence is the fixed-length writing of its own value.
pub proof fn lemma_fixed_digits_of_value(s: Seq<Digit>)
    ensures
        fixed_digits(value(s), s.len()) == s,
{
    lemma_value_fits(s);
    lemma_fixed_digits(value(s), s.len());
    lemma_unique_fixed(fixed_digits(value(s), s.len()), s);
}

/// The value of `3^40`, one more than twice the largest value of 40 digits.
pub proof fn lemma_pow3_40()
    ensures
        pow3(40) == 12157665459056928801,
{
    reveal_with_fuel(pow3, 41);
}

/// The value of `3^5`, one more than twice the largest value of 5 digits.
pub proof fn lemma_pow3_5()
    ensures
        pow3(5) == 243,
{
    reveal_with_fuel(pow3, 6);
}

/// `balanced` writes `n`, and in the shortest way.
pub proof fn lemma_balanced(n: int)
    ensures
        value(balanced(n)) == n,
        canonical(balanced(n)),
        n != 0 ==> balanced(n)[0] != Digit::Zero,
    decreases vstd::math::abs(n),
{
    let d = low_digit(n);
    if -1 <= n <= 1 {
        lemma_value_single(d);
    } else {
        let rest = (n - d.to_int()) / 3;
        lemma_balanced(rest);
        lemma_value_push(balanced(rest), d);
        assert(balanced(n)[0] == balanced(rest)[0]);
    }
}

/// `balanced` of a value is the only shortest writing of it.
pub proof fn lemma_balanced_unique(s: Seq<Digit>)
    requires
        canonical(s),
    ensures
        s == balanced(value(s)),
{
    lemma_balanced(value(s));
    lemma_canonical_unique(s, balanced(value(s)));
}

} // verus!
