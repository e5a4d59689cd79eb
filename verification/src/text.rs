//! Numbers written in an ordinary radix, with the digits `0` to `9` and `a`
//! to `z`, and numbers read from the ordinary base 3.

use crate::error::{ParseTernaryError, TernaryError};
use crate::model::in_i64;
use vstd::arithmetic::div_mod::{
    lemma_div_decreases, lemma_fundamental_div_mod, lemma_mod_bound, lemma_small_mod,
};
use vstd::prelude::*;

verus! {

/// `String::push` of the standard library, which appends one character to
/// the end of a string. Its contract is taken from the library's
/// documentation and is not proved here.
pub assume_specification[ String::push ](s: &mut String, c: char)
    ensures
        final(s)@ == old(s)@.push(c),
;

/// The digits of `n` in the given radix, the most significant one first,
/// without leading zeros; the number 0 has the single digit 0.
pub open spec fn radix_digits(n: nat, radix: nat) -> Seq<nat>
    decreases n,
{
    if radix < 2 || n < radix {
        seq![n]
    } else {
        proof {
            lemma_div_decreases(n as int, radix as int);
        }
        radix_digits(n / radix, radix).push(n % radix)
    }
}

/// The character for a digit of a radix up to 36: `0` to `9`, then `a` to
/// `z`. The character `0` has the code 48, and `a` the code 97.
pub open spec fn radix_char(d: nat) -> char {
    if d < 10 {
        (d + 48) as char
    } else {
        (d + 87) as char
    }
}

/// The text of `x` in the given radix: a `-` if `x` is negative, then the
/// digits of its absolute value.
pub open spec fn radix_text(x: int, radix: nat) -> Seq<char> {
    let digits = radix_digits(vstd::math::abs(x), radix);
    let body = Seq::new(digits.len(), |i: int| radix_char(digits[i]));
    if x < 0 {
        seq!['-'] + body
    } else {
        body
    }
}

/// How the digits of `n` come from those of `n / radix`: the last digit is
/// the remainder, the digits before it are those of the quotient.
pub proof fn lemma_radix_digits(n: nat, radix: nat)
    requires
        radix >= 2,
    ensures
        radix_digits(n, radix).len() >= 1,
        radix_digits(n, radix).last() == n % radix,
        n < radix ==> radix_digits(n, radix).len() == 1,
        n >= radix ==> radix_digits(n, radix).drop_last() == radix_digits(n / radix, radix),
        forall|i: int|
            0 <= i < radix_digits(n, radix).len() ==> #[trigger] radix_digits(n, radix)[i] < radix,
    decreases n,
{
    if n >= radix {
        lemma_div_decreases(n as int, radix as int);
        lemma_radix_digits(n / radix, radix);
        assert(radix_digits(n, radix).drop_last() =~= radix_digits(n / radix, radix));
    } else {
        lemma_small_mod(n, radix);
    }
}

/// A quotient is 0 exactly when the dividend is below the divisor.
proof fn lemma_small_quotient(n: nat, radix: nat)
    requires
        radix >= 2,
    ensures
        n / radix == 0 <==> n < radix,
{
    lemma_fundamental_div_mod(n as int, radix as int);
    lemma_mod_bound(n as int, radix as int);
    if n / radix != 0 {
        assert(radix * (n / radix) >= radix) by (nonlinear_arith)
            requires
                n / radix >= 1,
                radix >= 2,
        ;
    } else {
        assert(radix * (n / radix) == 0) by (nonlinear_arith)
            requires
                n / radix == 0,
        ;
    }
}

/// The digits of `x` in the given radix, which is at least 2: the most
/// significant digit first, without leading zeros, and the single digit 0
/// for 0.
pub fn unsigned_digits(x: u64, radix: u32) -> (r: Vec<u32>)
    requires
        radix >= 2,
    ensures
        r@.len() == radix_digits(x as nat, radix as nat).len(),
        forall|i: int|
            0 <= i < r@.len() ==> #[trigger] r@[i] as nat == radix_digits(
                x as nat,
                radix as nat,
            )[i],
{
    let ghost all = radix_digits(x as nat, radix as nat);
    let ghost mut low: Seq<nat> = Seq::empty();
    let mut reversed: Vec<u32> = Vec::new();
    let mut rest: u64 = x;
    loop
        invariant_except_break
            all == radix_digits(rest as nat, radix as nat) + low,
        invariant
            radix >= 2,
            all == radix_digits(x as nat, radix as nat),
            reversed@.len() == low.len(),
            forall|j: int|
                0 <= j < low.len() ==> #[trigger] reversed@[j] as nat == low[low.len() - 1 - j],
        ensures
            all == low,
        decreases rest,
    {
        let d: u32 = (rest % (radix as u64)) as u32;
        let ghost before = rest;
        let ghost low_before = low;
        rest = rest / (radix as u64);
        reversed.push(d);
        proof {
            lemma_radix_digits(before as nat, radix as nat);
            low = seq![d as nat] + low_before;
            let digits = radix_digits(before as nat, radix as nat);
            assert(digits =~= digits.drop_last().push(d as nat));
            if rest == 0 {
                lemma_small_quotient(before as nat, radix as nat);
                assert(digits =~= seq![d as nat]);
                assert(all =~= low);
            } else {
                lemma_small_quotient(before as nat, radix as nat);
                assert(all =~= radix_digits(rest as nat, radix as nat) + low);
            }
        }
        if rest == 0 {
            break;
        }
    }
    let n = reversed.len();
    let mut digits: Vec<u32> = Vec::new();
    let mut i: usize = 0;
    while i < n
        invariant
            n == reversed@.len(),
            n == low.len(),
            i <= n,
            digits@.len() == i,
            forall|j: int|
                0 <= j < low.len() ==> #[trigger] reversed@[j] as nat == low[low.len() - 1 - j],
            forall|j: int| 0 <= j < i ==> #[trigger] digits@[j] as nat == low[j],
        decreases n - i,
    {
        digits.push(reversed[n - 1 - i]);
        i += 1;
    }
    digits
}

/// The character for the digit `d` of a radix up to 36.
fn digit_char(d: u32) -> (c: char)
    requires
        d < 36,
    ensures
        c == radix_char(d as nat),
{
    if d < 10 {
        (d as u8 + 48) as char
    } else {
        (d as u8 + 87) as char
    }
}

/// Writes `x` in the given radix, which is between 2 and 36: a `-` if `x`
/// is negative, then the digits of its absolute value without leading
/// zeros.
pub fn format_radix(x: i64, radix: u32) -> (r: String)
    requires
        2 <= radix <= 36,
    ensures
        r@ == radix_text(x as int, radix as nat),
{
    let magnitude: u64 = if x < 0 {
        (-(x as i128)) as u64
    } else {
        x as u64
    };
    let digits = unsigned_digits(magnitude, radix);
    let ghost model = radix_digits(magnitude as nat, radix as nat);
    let ghost sign: Seq<char> = if x < 0 {
        seq!['-']
    } else {
        Seq::empty()
    };
    let mut text = String::new();
    if x < 0 {
        text.push('-');
    }
    assert(text@ =~= sign);
    let n = digits.len();
    let mut i: usize = 0;
    while i < n
        invariant
            2 <= radix <= 36,
            n == digits@.len(),
            n == model.len(),
            i <= n,
            model == radix_digits(magnitude as nat, radix as nat),
            forall|j: int| 0 <= j < n ==> #[trigger] digits@[j] as nat == model[j],
            text@ == sign + Seq::new(i as nat, |j: int| radix_char(model[j])),
        decreases n - i,
    {
        proof {
            lemma_radix_digits(magnitude as nat, radix as nat);
        }
        let c = digit_char(digits[i]);
        text.push(c);
        assert(text@ =~= sign + Seq::new((i + 1) as nat, |j: int| radix_char(model[j])));
        i += 1;
    }
    assert(text@ =~= radix_text(x as int, radix as nat));
    text
}

/// Whether `c` is a digit of the ordinary base 3.
pub open spec fn is_base3_char(c: char) -> bool {
    c == '0' || c == '1' || c == '2'
}

/// The number that a sequence of the digits `0`, `1` and `2` stands for in
/// base 3, the most significant digit first. A digit is worth its code less
/// 48, the code of `0`.
pub open spec fn base3_value(body: Seq<char>) -> nat
    decreases body.len(),
{
    if body.len() == 0 {
        0
    } else {
        3 * base3_value(body.drop_last()) + (body.last() as nat - 48) as nat
    }
}

/// Whether a text starts with the sign `-`.
pub open spec fn has_minus(text: Seq<char>) -> bool {
    text.len() > 0 && text[0] == '-'
}

/// A text without its sign, if it has one.
pub open spec fn unbalanced_body(text: Seq<char>) -> Seq<char> {
    if has_minus(text) {
        text.drop_first()
    } else {
        text
    }
}

/// Whether a text writes a number in the ordinary base 3: an optional `-`
/// followed by one or more of the digits `0`, `1` and `2`.
pub open spec fn is_unbalanced_text(text: Seq<char>) -> bool {
    let body = unbalanced_body(text);
    body.len() > 0 && forall|i: int| 0 <= i < body.len() ==> is_base3_char(#[trigger] body[i])
}

/// The number that a text of the ordinary base 3 stands for.
pub open spec fn unbalanced_value(text: Seq<char>) -> int {
    if has_minus(text) {
        -(base3_value(unbalanced_body(text)) as int)
    } else {
        base3_value(unbalanced_body(text)) as int
    }
}

/// Whether `e` tells where a text stops being a number of the ordinary
/// base 3: at the first character after the sign that is no digit, or at
/// the end of a text that holds no digit.
pub open spec fn unbalanced_failure(text: Seq<char>, e: ParseTernaryError) -> bool {
    let start: int = if has_minus(text) {
        1
    } else {
        0
    };
    &&& start <= e.position <= text.len()
    &&& forall|i: int| start <= i < e.position ==> is_base3_char(#[trigger] text[i])
    &&& if e.position < text.len() {
        e.found == Some(text[e.position as int]) && !is_base3_char(text[e.position as int])
    } else {
        e.found.is_none() && e.position == start
    }
}

/// Reads a number written in the ordinary base 3: an optional `-`, then one
/// or more of the digits `0`, `1` and `2`; leading zeros are accepted.
///
/// Fails with `Parse` on any other text, and with `Overflow` on a number
/// that is well written but outside the range of `i64`.
pub fn parse_base3(text: &str) -> (r: Result<i64, TernaryError>)
    ensures
        r.is_ok() == (is_unbalanced_text(text@) && in_i64(unbalanced_value(text@))),
        match r {
            Ok(v) => v == unbalanced_value(text@),
            Err(TernaryError::Overflow) => is_unbalanced_text(text@),
            Err(TernaryError::Parse(e)) => !is_unbalanced_text(text@) && unbalanced_failure(
                text@,
                e,
            ),
            Err(_) => false,
        },
{
    let total = text.unicode_len();
    let mut negative = false;
    let mut magnitude: u64 = 0;
    let mut huge = false;
    let mut count: usize = 0;
    for c in it: text.chars()
        invariant
            it.seq() == text@,
            total == text@.len(),
            count == it.index(),
            negative == (count > 0 && has_minus(text@)),
            count == 0 ==> !huge && magnitude == 0,
            count > 0 ==> ({
                let start: int = if has_minus(text@) {
                    1
                } else {
                    0
                };
                let body = text@.subrange(start, count as int);
                &&& forall|i: int| start <= i < count ==> is_base3_char(#[trigger] text@[i])
                &&& !huge ==> magnitude == base3_value(body) && magnitude <= 0x8000_0000_0000_0000
                &&& huge ==> base3_value(body) > 0x8000_0000_0000_0000
            }),
    {
        let ghost start: int = if has_minus(text@) {
            1
        } else {
            0
        };
        if count == 0 && c == '-' {
            negative = true;
            assert(text@.subrange(1, 1) =~= Seq::<char>::empty());
        } else {
            let d: u64 = if c == '0' {
                0
            } else if c == '1' {
                1
            } else if c == '2' {
                2
            } else {
                proof {
                    let body = unbalanced_body(text@);
                    assert(body[count - start] == c);
                }
                return Err(
                    TernaryError::Parse(ParseTernaryError { position: count, found: Some(c) }),
                );
            };
            proof {
                let before = text@.subrange(start, count as int);
                let after = text@.subrange(start, count + 1);
                assert(after.drop_last() =~= before);
                assert(after.last() == c);
                assert(base3_value(after) == 3 * base3_value(before) + d);
                if count == 0 {
                    assert(before =~= Seq::<char>::empty());
                }
            }
            if !huge {
                let next: u128 = (magnitude as u128) * 3 + (d as u128);
                if next > 0x8000_0000_0000_0000 {
                    huge = true;
                } else {
                    magnitude = next as u64;
                }
            }
        }
        count += 1;
    }
    let ghost start: int = if has_minus(text@) {
        1
    } else {
        0
    };
    proof {
        if count > 0 {
            assert(text@.subrange(start, count as int) =~= unbalanced_body(text@));
        }
        let body = unbalanced_body(text@);
        assert forall|i: int| 0 <= i < body.len() implies is_base3_char(#[trigger] body[i]) by {
            assert(body[i] == text@[i + start]);
        }
    }
    if (negative && count == 1) || count == 0 {
        return Err(TernaryError::Parse(ParseTernaryError { position: count, found: None }));
    }
    if huge {
        return Err(TernaryError::Overflow);
    }
    if negative {
        Ok((-(magnitude as i128)) as i64)
    } else if magnitude > 0x7fff_ffff_ffff_ffff {
        Err(TernaryError::Overflow)
    } else {
        Ok(magnitude as i64)
    }
}

} // verus!
