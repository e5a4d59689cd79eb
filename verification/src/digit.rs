//! A single balanced ternary digit and its operation tables.
//!
//! Every operation on digits is total and given by a table. Each executable
//! operation `f` comes with a function `spec_f` for use in contracts, which
//! holds the table itself; `f` may be written in contracts wherever `spec_f`
//! is meant.
//!
//! Unary operations, by the digit they are applied to:
//!
//! | operation         | - | 0 | + |
//! |-------------------|---|---|---|
//! | possibly          | - | + | + |
//! | necessary         | - | - | + |
//! | contingently      | - | + | - |
//! | ht_not            | + | - | - |
//! | post              | 0 | + | - |
//! | pre               | + | - | 0 |
//! | neg, not          | + | 0 | - |
//! | absolute_positive | + | 0 | + |
//! | positive          | 0 | 0 | + |
//! | not_negative      | 0 | + | + |
//! | not_positive      | - | - | 0 |
//! | negative          | - | 0 | 0 |
//! | absolute_negative | - | 0 | - |
//!
//! Binary operations, by the pair `self`, `other`:
//!
//! | operation  | -- | -0 | -+ | 0- | 00 | 0+ | +- | +0 | ++ |
//! |------------|----|----|----|----|----|----|----|----|----|
//! | add        | -+ | -  | 0  | -  | 0  | +  | 0  | +  | +- |
//! | sub        | 0  | -  | -+ | +  | 0  | -  | +- | +  | 0  |
//! | div        | +  |    | -  | 0  |    | 0  | -  |    | +  |
//! | mul        | +  | 0  | -  | 0  | 0  | 0  | -  | 0  | +  |
//! | bitand     | -  | -  | -  | -  | 0  | 0  | -  | 0  | +  |
//! | bi3_and    | -  | 0  | -  | 0  | 0  | 0  | -  | 0  | +  |
//! | bitor      | -  | 0  | +  | 0  | 0  | +  | +  | +  | +  |
//! | bi3_or     | -  | 0  | +  | 0  | 0  | 0  | +  | 0  | +  |
//! | bitxor     | -  | 0  | +  | 0  | 0  | 0  | +  | 0  | -  |
//! | k3_equiv   | +  | 0  | -  | 0  | 0  | 0  | -  | 0  | +  |
//! | k3_imply   | +  | +  | +  | 0  | 0  | +  | -  | 0  | +  |
//! | bi3_imply  | +  | 0  | +  | 0  | 0  | 0  | -  | 0  | +  |
//! | l3_imply   | +  | +  | +  | 0  | +  | +  | -  | 0  | +  |
//! | rm3_imply  | +  | +  | +  | -  | 0  | +  | -  | -  | +  |
//! | para_imply | +  | +  | +  | -  | 0  | +  | -  | 0  | +  |
//! | ht_imply   | +  | +  | +  | -  | +  | +  | -  | 0  | +  |

use crate::error::TernaryError;
use crate::lemmas::{lemma_value_push, lemma_value_single};
use crate::model::{canonical, value};
use crate::ternary::Ternary;
use vstd::prelude::*;

verus! {

/// One balanced ternary digit: `Neg` is -1, `Zero` is 0 and `Pos` is +1.
/// Digits are ordered as their values are.
#[derive(Debug, Copy, Clone, PartialEq, Eq, Ord, Hash, Structural)]
pub enum Digit {
    /// The digit -1, written `-`.
    Neg,
    /// The digit 0, written `0`.
    Zero,
    /// The digit +1, written `+`.
    Pos,
}

/// Reads a unary table: the image of `d` when `Neg`, `Zero` and `Pos` are
/// sent to `on_neg`, `on_zero` and `on_pos`.
pub open spec fn unary(d: Digit, on_neg: Digit, on_zero: Digit, on_pos: Digit) -> Digit {
    match d {
        Digit::Neg => on_neg,
        Digit::Zero => on_zero,
        Digit::Pos => on_pos,
    }
}

/// Reads a binary table: `a` picks the row, `b` the entry within it. Each
/// row lists the results for `b` being `Neg`, `Zero` and `Pos`.
pub open spec fn binary(
    a: Digit,
    b: Digit,
    row_neg: (Digit, Digit, Digit),
    row_zero: (Digit, Digit, Digit),
    row_pos: (Digit, Digit, Digit),
) -> Digit {
    match a {
        Digit::Neg => unary(b, row_neg.0, row_neg.1, row_neg.2),
        Digit::Zero => unary(b, row_zero.0, row_zero.1, row_zero.2),
        Digit::Pos => unary(b, row_pos.0, row_pos.1, row_pos.2),
    }
}

/// Whether `c` is one of the three characters that stand for a digit.
pub open spec fn is_digit_char(c: char) -> bool {
    c == '-' || c == '0' || c == '+'
}

/// The digit that a character stands for; `Zero` for any other character.
pub open spec fn digit_of_char(c: char) -> Digit {
    if c == '-' {
        Digit::Neg
    } else if c == '+' {
        Digit::Pos
    } else {
        Digit::Zero
    }
}

/// The digit of a given value; `Zero` for a value outside -1, 0, 1.
pub open spec fn digit_of_int(i: int) -> Digit {
    if i == -1 {
        Digit::Neg
    } else if i == 1 {
        Digit::Pos
    } else {
        Digit::Zero
    }
}

impl Digit {
    /// The value of the digit: -1, 0 or 1.
    pub open spec fn to_int(self) -> int {
        match self {
            Digit::Neg => -1,
            Digit::Zero => 0,
            Digit::Pos => 1,
        }
    }

    /// The character of the digit: `-`, `0` or `+`.
    pub open spec fn spec_to_char(&self) -> char {
        match self {
            Digit::Neg => '-',
            Digit::Zero => '0',
            Digit::Pos => '+',
        }
    }

    /// The character that stands for the digit: `-`, `0` or `+`.
    #[verifier::when_used_as_spec(spec_to_char)]
    pub fn to_char(&self) -> (c: char)
        ensures
            c == self.spec_to_char(),
            is_digit_char(c),
            digit_of_char(c) == *self,
    {
        match self {
            Digit::Neg => '-',
            Digit::Zero => '0',
            Digit::Pos => '+',
        }
    }

    /// The digit that `c` stands for.
    ///
    /// Fails with `InvalidInput` on every character but `-`, `0` and `+`.
    pub fn from_char(c: char) -> (r: Result<Digit, TernaryError>)
        ensures
            is_digit_char(c) ==> r == Ok::<Digit, TernaryError>(digit_of_char(c)),
            !is_digit_char(c) ==> r == Err::<Digit, TernaryError>(TernaryError::InvalidInput),
            r matches Ok(d) ==> d.to_char() == c,
    {
        match c {
            '-' => Ok(Digit::Neg),
            '0' => Ok(Digit::Zero),
            '+' => Ok(Digit::Pos),
            _ => Err(TernaryError::InvalidInput),
        }
    }

    /// The value of the digit as a signed byte: -1, 0 or 1.
    pub fn to_i8(&self) -> (i: i8)
        ensures
            i as int == self.to_int(),
            digit_of_int(i as int) == *self,
    {
        match self {
            Digit::Neg => -1,
            Digit::Zero => 0,
            Digit::Pos => 1,
        }
    }

    /// The digit whose value is `i`.
    ///
    /// Fails with `InvalidInput` on every integer but -1, 0 and 1.
    pub fn from_i8(i: i8) -> (r: Result<Digit, TernaryError>)
        ensures
            -1 <= i <= 1 ==> r == Ok::<Digit, TernaryError>(digit_of_int(i as int)),
            !(-1 <= i <= 1) ==> r == Err::<Digit, TernaryError>(TernaryError::InvalidInput),
            r matches Ok(d) ==> d.to_int() == i,
    {
        match i {
            -1 => Ok(Digit::Neg),
            0 => Ok(Digit::Zero),
            1 => Ok(Digit::Pos),
            _ => Err(TernaryError::InvalidInput),
        }
    }

    /// The digit of the ordinary base 3 that lies one above the value of
    /// this digit: 0 for `Neg`, 1 for `Zero`, 2 for `Pos`.
    pub fn to_unbalanced(self) -> (u: u8)
        ensures
            u as int == self.to_int() + 1,
    {
        match self {
            Digit::Neg => 0,
            Digit::Zero => 1,
            Digit::Pos => 2,
        }
    }

    /// The digit whose value lies one below `u`, a digit of the ordinary
    /// base 3.
    ///
    /// Fails with `InvalidInput` where `u` is above 2.
    pub fn from_unbalanced(u: u8) -> (r: Result<Digit, TernaryError>)
        ensures
            u <= 2 ==> r == Ok::<Digit, TernaryError>(digit_of_int(u as int - 1)),
            u > 2 ==> r == Err::<Digit, TernaryError>(TernaryError::InvalidInput),
            r matches Ok(d) ==> d.to_int() + 1 == u,
    {
        match u {
            0 => Ok(Digit::Neg),
            1 => Ok(Digit::Zero),
            2 => Ok(Digit::Pos),
            _ => Err(TernaryError::InvalidInput),
        }
    }

    /// The truth value of a digit that is decided in the here-and-there
    /// logic: `true` for `Pos`, `false` for `Neg`.
    ///
    /// `Zero` is undecided and gives `None`; [`Digit::possibly`],
    /// [`Digit::necessary`], [`Digit::contingently`] and [`Digit::ht_not`]
    /// each decide it first.
    pub fn ht_bool(self) -> (r: Option<bool>)
        ensures
            r == match self {
                Digit::Neg => Some(false),
                Digit::Zero => None::<bool>,
                Digit::Pos => Some(true),
            },
    {
        match self {
            Digit::Neg => Some(false),
            Digit::Zero => None,
            Digit::Pos => Some(true),
        }
    }

    /// The table of [`Digit::possibly`]: `-` gives `-`, `0` gives `+`, `+` gives `+`.
    pub open spec fn spec_possibly(self) -> Digit {
        unary(self, Digit::Neg, Digit::Pos, Digit::Pos)
    }

    /// Possibility: everything but `Neg` is held to be possible.
    #[verifier::when_used_as_spec(spec_possibly)]
    pub fn possibly(self) -> (r: Digit)
        ensures
            r == self.spec_possibly(),
    {
        match self {
            Digit::Neg => Digit::Neg,
            Digit::Zero => Digit::Pos,
            Digit::Pos => Digit::Pos,
        }
    }

    /// The table of [`Digit::necessary`]: `-` gives `-`, `0` gives `-`, `+` gives `+`.
    pub open spec fn spec_necessary(self) -> Digit {
        unary(self, Digit::Neg, Digit::Neg, Digit::Pos)
    }

    /// Necessity: only `Pos` is held to be necessary.
    #[verifier::when_used_as_spec(spec_necessary)]
    pub fn necessary(self) -> (r: Digit)
        ensures
            r == self.spec_necessary(),
    {
        match self {
            Digit::Neg => Digit::Neg,
            Digit::Zero => Digit::Neg,
            Digit::Pos => Digit::Pos,
        }
    }

    /// The table of [`Digit::contingently`]: `-` gives `-`, `0` gives `+`, `+` gives `-`.
    pub open spec fn spec_contingently(self) -> Digit {
        unary(self, Digit::Neg, Digit::Pos, Digit::Neg)
    }

    /// Contingency: `Pos` exactly on the undetermined digit `Zero`.
    #[verifier::when_used_as_spec(spec_contingently)]
    pub fn contingently(self) -> (r: Digit)
        ensures
            r == self.spec_contingently(),
    {
        match self {
            Digit::Neg => Digit::Neg,
            Digit::Zero => Digit::Pos,
            Digit::Pos => Digit::Neg,
        }
    }

    /// The table of [`Digit::absolute_positive`]: `-` gives `+`, `0` gives `0`, `+` gives `+`.
    pub open spec fn spec_absolute_positive(self) -> Digit {
        unary(self, Digit::Pos, Digit::Zero, Digit::Pos)
    }

    /// The digit without its sign, as a non-negative digit.
    #[verifier::when_used_as_spec(spec_absolute_positive)]
    pub fn absolute_positive(self) -> (r: Digit)
        ensures
            r == self.spec_absolute_positive(),
    {
        match self {
            Digit::Neg => Digit::Pos,
            Digit::Zero => Digit::Zero,
            Digit::Pos => Digit::Pos,
        }
    }

    /// The table of [`Digit::positive`]: `-` gives `0`, `0` gives `0`, `+` gives `+`.
    pub open spec fn spec_positive(self) -> Digit {
        unary(self, Digit::Zero, Digit::Zero, Digit::Pos)
    }

    /// Keeps `Pos` and clamps everything else to `Zero`.
    #[verifier::when_used_as_spec(spec_positive)]
    pub fn positive(self) -> (r: Digit)
        ensures
            r == self.spec_positive(),
    {
        match self {
            Digit::Neg => Digit::Zero,
            Digit::Zero => Digit::Zero,
            Digit::Pos => Digit::Pos,
        }
    }

    /// The table of [`Digit::not_negative`]: `-` gives `0`, `0` gives `+`, `+` gives `+`.
    pub open spec fn spec_not_negative(self) -> Digit {
        unary(self, Digit::Zero, Digit::Pos, Digit::Pos)
    }

    /// Moves `Neg` up to `Zero` and everything else to `Pos`.
    #[verifier::when_used_as_spec(spec_not_negative)]
    pub fn not_negative(self) -> (r: Digit)
        ensures
            r == self.spec_not_negative(),
    {
        match self {
            Digit::Neg => Digit::Zero,
            Digit::Zero => Digit::Pos,
            Digit::Pos => Digit::Pos,
        }
    }

    /// The table of [`Digit::not_positive`]: `-` gives `-`, `0` gives `-`, `+` gives `0`.
    pub open spec fn spec_not_positive(self) -> Digit {
        unary(self, Digit::Neg, Digit::Neg, Digit::Zero)
    }

    /// Moves `Pos` down to `Zero` and everything else to `Neg`.
    #[verifier::when_used_as_spec(spec_not_positive)]
    pub fn not_positive(self) -> (r: Digit)
        ensures
            r == self.spec_not_positive(),
    {
        match self {
            Digit::Neg => Digit::Neg,
            Digit::Zero => Digit::Neg,
            Digit::Pos => Digit::Zero,
        }
    }

    /// The table of [`Digit::negative`]: `-` gives `-`, `0` gives `0`, `+` gives `0`.
    pub open spec fn spec_negative(self) -> Digit {
        unary(self, Digit::Neg, Digit::Zero, Digit::Zero)
    }

    /// Keeps `Neg` and clamps everything else to `Zero`.
    #[verifier::when_used_as_spec(spec_negative)]
    pub fn negative(self) -> (r: Digit)
        ensures
            r == self.spec_negative(),
    {
        match self {
            Digit::Neg => Digit::Neg,
            Digit::Zero => Digit::Zero,
            Digit::Pos => Digit::Zero,
        }
    }

    /// The table of [`Digit::absolute_negative`]: `-` gives `-`, `0` gives `0`, `+` gives `-`.
    pub open spec fn spec_absolute_negative(self) -> Digit {
        unary(self, Digit::Neg, Digit::Zero, Digit::Neg)
    }

    /// The digit without its sign, as a non-positive digit.
    #[verifier::when_used_as_spec(spec_absolute_negative)]
    pub fn absolute_negative(self) -> (r: Digit)
        ensures
            r == self.spec_absolute_negative(),
    {
        match self {
            Digit::Neg => Digit::Neg,
            Digit::Zero => Digit::Zero,
            Digit::Pos => Digit::Neg,
        }
    }

    /// The table of [`Digit::ht_not`]: `-` gives `+`, `0` gives `-`, `+` gives `-`.
    pub open spec fn spec_ht_not(self) -> Digit {
        unary(self, Digit::Pos, Digit::Neg, Digit::Neg)
    }

    /// Negation of the here-and-there logic: `Pos` on `Neg` only.
    #[verifier::when_used_as_spec(spec_ht_not)]
    pub fn ht_not(self) -> (r: Digit)
        ensures
            r == self.spec_ht_not(),
    {
        match self {
            Digit::Neg => Digit::Pos,
            Digit::Zero => Digit::Neg,
            Digit::Pos => Digit::Neg,
        }
    }

    /// The table of [`Digit::post`]: `-` gives `0`, `0` gives `+`, `+` gives `-`.
    pub open spec fn spec_post(self) -> Digit {
        unary(self, Digit::Zero, Digit::Pos, Digit::Neg)
    }

    /// Post's cyclic negation: each digit moves one step up, `Pos` wraps to `Neg`.
    #[verifier::when_used_as_spec(spec_post)]
    pub fn post(self) -> (r: Digit)
        ensures
            r == self.spec_post(),
    {
        match self {
            Digit::Neg => Digit::Zero,
            Digit::Zero => Digit::Pos,
            Digit::Pos => Digit::Neg,
        }
    }

    /// The table of [`Digit::pre`]: `-` gives `+`, `0` gives `-`, `+` gives `0`.
    pub open spec fn spec_pre(self) -> Digit {
        unary(self, Digit::Pos, Digit::Neg, Digit::Zero)
    }

    /// The inverse of [`Digit::post`]: each digit moves one step down, `Neg` wraps to `Pos`.
    #[verifier::when_used_as_spec(spec_pre)]
    pub fn pre(self) -> (r: Digit)
        ensures
            r == self.spec_pre(),
    {
        match self {
            Digit::Neg => Digit::Pos,
            Digit::Zero => Digit::Neg,
            Digit::Pos => Digit::Zero,
        }
    }

    /// The table of [`Digit::neg`]: `-` gives `+`, `0` gives `0`, `+` gives `-`.
    pub open spec fn spec_neg(self) -> Digit {
        unary(self, Digit::Pos, Digit::Zero, Digit::Neg)
    }

    /// Arithmetic negation: swaps `Neg` and `Pos`, keeps `Zero`.
    #[verifier::when_used_as_spec(spec_neg)]
    pub fn neg(self) -> (r: Digit)
        ensures
            r == self.spec_neg(),
    {
        match self {
            Digit::Neg => Digit::Pos,
            Digit::Zero => Digit::Zero,
            Digit::Pos => Digit::Neg,
        }
    }

    /// The table of [`Digit::not`], which is that of [`Digit::neg`].
    pub open spec fn spec_not(self) -> Digit {
        self.spec_neg()
    }

    /// Logical negation; the same operation as [`Digit::neg`].
    #[verifier::when_used_as_spec(spec_not)]
    pub fn not(self) -> (r: Digit)
        ensures
            r == self.spec_not(),
    {
        self.neg()
    }

    /// The table of [`Digit::mul`], one row for each value of `self`
    /// and one column for each value of `other`, both in the order `-`, `0`, `+`:
    /// `+0-`, `000`, `-0+`.
    pub open spec fn spec_mul(self, other: Digit) -> Digit {
        binary(
            self,
            other,
            (Digit::Pos, Digit::Zero, Digit::Neg),
            (Digit::Zero, Digit::Zero, Digit::Zero),
            (Digit::Neg, Digit::Zero, Digit::Pos),
        )
    }

    /// Product of two digits.
    #[verifier::when_used_as_spec(spec_mul)]
    pub fn mul(self, other: Digit) -> (r: Digit)
        ensures
            r == self.spec_mul(other),
    {
        match self {
            Digit::Neg => other.neg(),
            Digit::Zero => Digit::Zero,
            Digit::Pos => other,
        }
    }

    /// The table of [`Digit::bitand`], one row for each value of `self`
    /// and one column for each value of `other`, both in the order `-`, `0`, `+`:
    /// `---`, `-00`, `-0+`.
    pub open spec fn spec_bitand(self, other: Digit) -> Digit {
        binary(
            self,
            other,
            (Digit::Neg, Digit::Neg, Digit::Neg),
            (Digit::Neg, Digit::Zero, Digit::Zero),
            (Digit::Neg, Digit::Zero, Digit::Pos),
        )
    }

    /// Conjunction of Kleene's and Łukasiewicz's logics: the smaller of the two digits.
    #[verifier::when_used_as_spec(spec_bitand)]
    pub fn bitand(self, other: Digit) -> (r: Digit)
        ensures
            r == self.spec_bitand(other),
    {
        match self {
            Digit::Neg => Digit::Neg,
            Digit::Zero => other.negative(),
            Digit::Pos => other,
        }
    }

    /// The table of [`Digit::bitor`], one row for each value of `self`
    /// and one column for each value of `other`, both in the order `-`, `0`, `+`:
    /// `-0+`, `00+`, `+++`.
    pub open spec fn spec_bitor(self, other: Digit) -> Digit {
        binary(
            self,
            other,
            (Digit::Neg, Digit::Zero, Digit::Pos),
            (Digit::Zero, Digit::Zero, Digit::Pos),
            (Digit::Pos, Digit::Pos, Digit::Pos),
        )
    }

    /// Disjunction of Kleene's and Łukasiewicz's logics: the larger of the two digits.
    #[verifier::when_used_as_spec(spec_bitor)]
    pub fn bitor(self, other: Digit) -> (r: Digit)
        ensures
            r == self.spec_bitor(other),
    {
        match self {
            Digit::Neg => other,
            Digit::Zero => other.positive(),
            Digit::Pos => Digit::Pos,
        }
    }

    /// The table of [`Digit::bitxor`], one row for each value of `self`
    /// and one column for each value of `other`, both in the order `-`, `0`, `+`:
    /// `-0+`, `000`, `+0-`.
    pub open spec fn spec_bitxor(self, other: Digit) -> Digit {
        binary(
            self,
            other,
            (Digit::Neg, Digit::Zero, Digit::Pos),
            (Digit::Zero, Digit::Zero, Digit::Zero),
            (Digit::Pos, Digit::Zero, Digit::Neg),
        )
    }

    /// Exclusive disjunction of Kleene's logic.
    #[verifier::when_used_as_spec(spec_bitxor)]
    pub fn bitxor(self, other: Digit) -> (r: Digit)
        ensures
            r == self.spec_bitxor(other),
    {
        match self {
            Digit::Neg => other,
            Digit::Zero => Digit::Zero,
            Digit::Pos => other.neg(),
        }
    }

    /// The table of [`Digit::k3_imply`], one row for each value of `self`
    /// and one column for each value of `other`, both in the order `-`, `0`, `+`:
    /// `+++`, `00+`, `-0+`.
    pub open spec fn spec_k3_imply(self, other: Digit) -> Digit {
        binary(
            self,
            other,
            (Digit::Pos, Digit::Pos, Digit::Pos),
            (Digit::Zero, Digit::Zero, Digit::Pos),
            (Digit::Neg, Digit::Zero, Digit::Pos),
        )
    }

    /// Implication of Kleene's logic, `self` being the antecedent.
    #[verifier::when_used_as_spec(spec_k3_imply)]
    pub fn k3_imply(self, other: Digit) -> (r: Digit)
        ensures
            r == self.spec_k3_imply(other),
    {
        match self {
            Digit::Neg => Digit::Pos,
            Digit::Zero => other.positive(),
            Digit::Pos => other,
        }
    }

    /// The table of [`Digit::k3_equiv`], one row for each value of `self`
    /// and one column for each value of `other`, both in the order `-`, `0`, `+`:
    /// `+0-`, `000`, `-0+`.
    pub open spec fn spec_k3_equiv(self, other: Digit) -> Digit {
        binary(
            self,
            other,
            (Digit::Pos, Digit::Zero, Digit::Neg),
            (Digit::Zero, Digit::Zero, Digit::Zero),
            (Digit::Neg, Digit::Zero, Digit::Pos),
        )
    }

    /// Equivalence of Kleene's logic.
    #[verifier::when_used_as_spec(spec_k3_equiv)]
    pub fn k3_equiv(self, other: Digit) -> (r: Digit)
        ensures
            r == self.spec_k3_equiv(other),
    {
        match self {
            Digit::Neg => other.neg(),
            Digit::Zero => Digit::Zero,
            Digit::Pos => other,
        }
    }

    /// The table of [`Digit::bi3_and`], one row for each value of `self`
    /// and one column for each value of `other`, both in the order `-`, `0`, `+`:
    /// `-0-`, `000`, `-0+`.
    pub open spec fn spec_bi3_and(self, other: Digit) -> Digit {
        binary(
            self,
            other,
            (Digit::Neg, Digit::Zero, Digit::Neg),
            (Digit::Zero, Digit::Zero, Digit::Zero),
            (Digit::Neg, Digit::Zero, Digit::Pos),
        )
    }

    /// Conjunction of Bochvar's internal logic: `Zero` is contagious.
    #[verifier::when_used_as_spec(spec_bi3_and)]
    pub fn bi3_and(self, other: Digit) -> (r: Digit)
        ensures
            r == self.spec_bi3_and(other),
    {
        match self {
            Digit::Neg => other.absolute_negative(),
            Digit::Zero => Digit::Zero,
            Digit::Pos => other,
        }
    }

    /// The table of [`Digit::bi3_or`], one row for each value of `self`
    /// and one column for each value of `other`, both in the order `-`, `0`, `+`:
    /// `-0+`, `000`, `+0+`.
    pub open spec fn spec_bi3_or(self, other: Digit) -> Digit {
        binary(
            self,
            other,
            (Digit::Neg, Digit::Zero, Digit::Pos),
            (Digit::Zero, Digit::Zero, Digit::Zero),
            (Digit::Pos, Digit::Zero, Digit::Pos),
        )
    }

    /// Disjunction of Bochvar's internal logic: `Zero` is contagious.
    #[verifier::when_used_as_spec(spec_bi3_or)]
    pub fn bi3_or(self, other: Digit) -> (r: Digit)
        ensures
            r == self.spec_bi3_or(other),
    {
        match self {
            Digit::Neg => other,
            Digit::Zero => Digit::Zero,
            Digit::Pos => other.absolute_positive(),
        }
    }

    /// The table of [`Digit::bi3_imply`], one row for each value of `self`
    /// and one column for each value of `other`, both in the order `-`, `0`, `+`:
    /// `+0+`, `000`, `-0+`.
    pub open spec fn spec_bi3_imply(self, other: Digit) -> Digit {
        binary(
            self,
            other,
            (Digit::Pos, Digit::Zero, Digit::Pos),
            (Digit::Zero, Digit::Zero, Digit::Zero),
            (Digit::Neg, Digit::Zero, Digit::Pos),
        )
    }

    /// Implication of Bochvar's internal logic, `self` being the antecedent.
    #[verifier::when_used_as_spec(spec_bi3_imply)]
    pub fn bi3_imply(self, other: Digit) -> (r: Digit)
        ensures
            r == self.spec_bi3_imply(other),
    {
        match self {
            Digit::Neg => other.absolute_positive(),
            Digit::Zero => Digit::Zero,
            Digit::Pos => other,
        }
    }

    /// The table of [`Digit::l3_imply`], one row for each value of `self`
    /// and one column for each value of `other`, both in the order `-`, `0`, `+`:
    /// `+++`, `0++`, `-0+`.
    pub open spec fn spec_l3_imply(self, other: Digit) -> Digit {
        binary(
            self,
            other,
            (Digit::Pos, Digit::Pos, Digit::Pos),
            (Digit::Zero, Digit::Pos, Digit::Pos),
            (Digit::Neg, Digit::Zero, Digit::Pos),
        )
    }

    /// Implication of Łukasiewicz's logic, `self` being the antecedent.
    #[verifier::when_used_as_spec(spec_l3_imply)]
    pub fn l3_imply(self, other: Digit) -> (r: Digit)
        ensures
            r == self.spec_l3_imply(other),
    {
        match self {
            Digit::Neg => Digit::Pos,
            Digit::Zero => other.not_negative(),
            Digit::Pos => other,
        }
    }

    /// The table of [`Digit::rm3_imply`], one row for each value of `self`
    /// and one column for each value of `other`, both in the order `-`, `0`, `+`:
    /// `+++`, `-0+`, `--+`.
    pub open spec fn spec_rm3_imply(self, other: Digit) -> Digit {
        binary(
            self,
            other,
            (Digit::Pos, Digit::Pos, Digit::Pos),
            (Digit::Neg, Digit::Zero, Digit::Pos),
            (Digit::Neg, Digit::Neg, Digit::Pos),
        )
    }

    /// Implication of the logic RM3, `self` being the antecedent.
    #[verifier::when_used_as_spec(spec_rm3_imply)]
    pub fn rm3_imply(self, other: Digit) -> (r: Digit)
        ensures
            r == self.spec_rm3_imply(other),
    {
        match self {
            Digit::Neg => Digit::Pos,
            Digit::Zero => other,
            Digit::Pos => other.necessary(),
        }
    }

    /// The table of [`Digit::para_imply`], one row for each value of `self`
    /// and one column for each value of `other`, both in the order `-`, `0`, `+`:
    /// `+++`, `-0+`, `-0+`.
    pub open spec fn spec_para_imply(self, other: Digit) -> Digit {
        binary(
            self,
            other,
            (Digit::Pos, Digit::Pos, Digit::Pos),
            (Digit::Neg, Digit::Zero, Digit::Pos),
            (Digit::Neg, Digit::Zero, Digit::Pos),
        )
    }

    /// Implication of the paraconsistent logic, `self` being the antecedent.
    #[verifier::when_used_as_spec(spec_para_imply)]
    pub fn para_imply(self, other: Digit) -> (r: Digit)
        ensures
            r == self.spec_para_imply(other),
    {
        match self {
            Digit::Neg => Digit::Pos,
            Digit::Zero => other,
            Digit::Pos => other,
        }
    }

    /// The table of [`Digit::ht_imply`], one row for each value of `self`
    /// and one column for each value of `other`, both in the order `-`, `0`, `+`:
    /// `+++`, `-++`, `-0+`.
    pub open spec fn spec_ht_imply(self, other: Digit) -> Digit {
        binary(
            self,
            other,
            (Digit::Pos, Digit::Pos, Digit::Pos),
            (Digit::Neg, Digit::Pos, Digit::Pos),
            (Digit::Neg, Digit::Zero, Digit::Pos),
        )
    }

    /// Implication of the here-and-there logic, `self` being the antecedent.
    #[verifier::when_used_as_spec(spec_ht_imply)]
    pub fn ht_imply(self, other: Digit) -> (r: Digit)
        ensures
            r == self.spec_ht_imply(other),
    {
        match self {
            Digit::Neg => Digit::Pos,
            Digit::Zero => other.possibly(),
            Digit::Pos => other,
        }
    }

    /// The digits of [`Digit::inc`]: `0` for `-`, `+` for `0`, and `+-` for
    /// `+`, where the count runs over into a second digit.
    pub open spec fn spec_inc(self) -> Seq<Digit> {
        match self {
            Digit::Neg => seq![Digit::Zero],
            Digit::Zero => seq![Digit::Pos],
            Digit::Pos => seq![Digit::Pos, Digit::Neg],
        }
    }

    /// The digit plus one, as a number of one or two digits.
    pub fn inc(self) -> (r: Ternary)
        ensures
            r@ == self.spec_inc(),
            value(r@) == self.to_int() + 1,
            canonical(r@),
    {
        let r = match self {
            Digit::Neg => Ternary::new(vec![Digit::Zero]),
            Digit::Zero => Ternary::new(vec![Digit::Pos]),
            Digit::Pos => Ternary::new(vec![Digit::Pos, Digit::Neg]),
        };
        proof {
            lemma_value_short(r@);
        }
        r
    }

    /// The digits of [`Digit::dec`]: `-+` for `-`, where the count runs
    /// over into a second digit, `-` for `0`, and `0` for `+`.
    pub open spec fn spec_dec(self) -> Seq<Digit> {
        match self {
            Digit::Neg => seq![Digit::Neg, Digit::Pos],
            Digit::Zero => seq![Digit::Neg],
            Digit::Pos => seq![Digit::Zero],
        }
    }

    /// The digit minus one, as a number of one or two digits.
    pub fn dec(self) -> (r: Ternary)
        ensures
            r@ == self.spec_dec(),
            value(r@) == self.to_int() - 1,
            canonical(r@),
    {
        let r = match self {
            Digit::Neg => Ternary::new(vec![Digit::Neg, Digit::Pos]),
            Digit::Zero => Ternary::new(vec![Digit::Neg]),
            Digit::Pos => Ternary::new(vec![Digit::Zero]),
        };
        proof {
            lemma_value_short(r@);
        }
        r
    }

    /// The digits of [`Digit::add`]: the sum of two digits written with as
    /// few digits as it takes.
    ///
    /// | `self` | `-`  | `0` | `+`  |
    /// |--------|------|-----|------|
    /// | `-`    | `-+` | `-` | `0`  |
    /// | `0`    | `-`  | `0` | `+`  |
    /// | `+`    | `0`  | `+` | `+-` |
    pub open spec fn spec_add(self, other: Digit) -> Seq<Digit> {
        match self {
            Digit::Neg => match other {
                Digit::Neg => seq![Digit::Neg, Digit::Pos],
                Digit::Zero => seq![Digit::Neg],
                Digit::Pos => seq![Digit::Zero],
            },
            Digit::Zero => seq![other],
            Digit::Pos => match other {
                Digit::Neg => seq![Digit::Zero],
                Digit::Zero => seq![Digit::Pos],
                Digit::Pos => seq![Digit::Pos, Digit::Neg],
            },
        }
    }

    /// Sum of two digits, as a number of one or two digits: the first of
    /// two digits is the carry.
    pub fn add(self, other: Digit) -> (r: Ternary)
        ensures
            r@ == self.spec_add(other),
            value(r@) == self.to_int() + other.to_int(),
            canonical(r@),
    {
        let r = match self {
            Digit::Neg => other.dec(),
            Digit::Zero => Ternary::new(vec![other]),
            Digit::Pos => other.inc(),
        };
        proof {
            lemma_value_short(r@);
        }
        r
    }

    /// The digits of [`Digit::sub`]: the difference of two digits written
    /// with as few digits as it takes.
    ///
    /// | `self` | `-`  | `0` | `+`  |
    /// |--------|------|-----|------|
    /// | `-`    | `0`  | `-` | `-+` |
    /// | `0`    | `+`  | `0` | `-`  |
    /// | `+`    | `+-` | `+` | `0`  |
    pub open spec fn spec_sub(self, other: Digit) -> Seq<Digit> {
        match self {
            Digit::Neg => match other {
                Digit::Neg => seq![Digit::Zero],
                Digit::Zero => seq![Digit::Neg],
                Digit::Pos => seq![Digit::Neg, Digit::Pos],
            },
            Digit::Zero => seq![other.spec_neg()],
            Digit::Pos => match other {
                Digit::Neg => seq![Digit::Pos, Digit::Neg],
                Digit::Zero => seq![Digit::Pos],
                Digit::Pos => seq![Digit::Zero],
            },
        }
    }

    /// Difference of two digits, as a number of one or two digits: the
    /// first of two digits is the carry.
    pub fn sub(self, other: Digit) -> (r: Ternary)
        ensures
            r@ == self.spec_sub(other),
            r@ == self.spec_add(other.spec_neg()),
            value(r@) == self.to_int() - other.to_int(),
            canonical(r@),
    {
        let r = self.add(other.neg());
        assert(r@ =~= self.spec_sub(other));
        r
    }

    /// Quotient of two digits.
    ///
    /// Fails with `DivideByZero` where `other` is `Zero`. Every other digit
    /// is its own inverse, so the quotient is the product.
    pub fn div(self, other: Digit) -> (r: Result<Digit, TernaryError>)
        ensures
            other == Digit::Zero ==> r == Err::<Digit, TernaryError>(TernaryError::DivideByZero),
            other != Digit::Zero ==> r == Ok::<Digit, TernaryError>(self.spec_mul(other)),
            r matches Ok(q) ==> q.to_int() * other.to_int() == self.to_int(),
    {
        if other == Digit::Zero {
            return Err(TernaryError::DivideByZero);
        }
        Ok(self.mul(other))
    }
}

/// The value of a number of one or two digits, written out.
proof fn lemma_value_short(s: Seq<Digit>)
    requires
        1 <= s.len() <= 2,
    ensures
        s.len() == 1 ==> value(s) == s[0].to_int(),
        s.len() == 2 ==> value(s) == 3 * s[0].to_int() + s[1].to_int(),
{
    if s.len() == 1 {
        assert(s =~= seq![s[0]]);
        lemma_value_single(s[0]);
    } else {
        assert(s =~= seq![s[0]].push(s[1]));
        lemma_value_single(s[0]);
        lemma_value_push(seq![s[0]], s[1]);
    }
}

} // verus!
