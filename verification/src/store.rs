//! Compact storage of balanced ternary numbers: five digits in one byte,
//! numbers of any length as a row of such bytes, and forty digits in one
//! 64-bit integer.
//!
//! Each type stores values, not digits; its view is the sequence of digits
//! that the stored values stand for. Everything here is built on the
//! conversions of [`Ternary`] and adds nothing but the cutting into
//! chunks.

use crate::concepts::DigitOperate;
use crate::digit::Digit;
use crate::error::TernaryError;
use crate::lemmas::{
    lemma_canonical_len, lemma_canonical_unique, lemma_fits_monotonic, lemma_fixed_digits,
    lemma_fixed_digits_of_value, lemma_pow3_40, lemma_pow3_5, lemma_trimmed, lemma_unique_fixed,
    lemma_value_fits, lemma_value_padded,
};
use crate::model::{
    balanced, carry_chain, chunked_len, fits, fixed_digits, in_i64, longer, padded, pow3,
    shorter_padded, text_of_digits, trimmed, value,
};
use crate::ternary::{copy_digits, Ternary};
use vstd::prelude::*;

verus! {

/// The number of digits that one [`TritsChunk`] holds.
pub const CHUNK_DIGITS: usize = 5;

/// The number of digits that one [`Big`] holds.
pub const BIG_DIGITS: usize = 40;

/// Five balanced ternary digits stored as their value in one byte, from
/// -121 to 121. The view is the five digits.
#[derive(Copy, Clone, Debug, PartialEq, Eq, PartialOrd, Ord, Hash, Default, Structural)]
pub struct TritsChunk(i8);

impl View for TritsChunk {
    type V = Seq<Digit>;

    closed spec fn view(&self) -> Seq<Digit> {
        fixed_digits(self.0 as int, CHUNK_DIGITS as nat)
    }
}

impl TritsChunk {
    #[verifier::type_invariant]
    spec fn fits_five_digits(self) -> bool {
        -121 <= self.0 <= 121
    }

    /// A chunk has exactly five digits.
    pub proof fn lemma_len(self)
        ensures
            self@.len() == CHUNK_DIGITS,
    {
        lemma_fixed_digits(self.0 as int, CHUNK_DIGITS as nat);
    }

    /// The chunk of value `from`.
    ///
    /// Fails with `LengthExceeded` exactly when `from` is outside -121 to
    /// 121 and so cannot be written with five digits.
    pub fn from_dec(from: i8) -> (r: Result<Self, TernaryError>)
        ensures
            r.is_ok() == (-121 <= from <= 121),
            match r {
                Ok(chunk) => chunk@ == fixed_digits(from as int, CHUNK_DIGITS as nat) && value(chunk@)
                    == from,
                Err(e) => e == TernaryError::LengthExceeded,
            },
    {
        if from < -121 || from > 121 {
            return Err(TernaryError::LengthExceeded);
        }
        proof {
            lemma_pow3_5();
            lemma_fixed_digits(from as int, CHUNK_DIGITS as nat);
        }
        Ok(TritsChunk(from))
    }

    /// The value of the chunk, from -121 to 121.
    pub fn to_dec(&self) -> (r: i8)
        ensures
            r == value(self@),
            -121 <= r <= 121,
    {
        proof {
            use_type_invariant(self);
            lemma_pow3_5();
            lemma_fixed_digits(self.0 as int, CHUNK_DIGITS as nat);
        }
        self.0
    }

    /// The value of the chunk in its shortest writing.
    pub fn to_ternary(&self) -> (r: Ternary)
        ensures
            r@ == trimmed(self@),
    {
        let r = Ternary::from_dec(self.to_dec() as i64);
        proof {
            lemma_trimmed(self@);
            lemma_canonical_unique(r@, trimmed(self@));
        }
        r
    }

    /// The five digits of the chunk.
    pub fn to_fixed_ternary(&self) -> (r: Ternary)
        ensures
            r@ == self@,
            r@.len() == CHUNK_DIGITS,
    {
        let shortest = Ternary::from_dec(self.to_dec() as i64);
        let r = shortest.with_length(CHUNK_DIGITS);
        proof {
            lemma_pow3_5();
            lemma_fixed_digits(self.0 as int, CHUNK_DIGITS as nat);
            lemma_canonical_len(shortest@);
            if shortest@.len() > CHUNK_DIGITS {
                lemma_fits_monotonic(
                    value(shortest@),
                    CHUNK_DIGITS as nat,
                    (shortest@.len() - 1) as nat,
                );
            }
            lemma_value_padded(shortest@, CHUNK_DIGITS as nat);
            lemma_unique_fixed(r@, self@);
        }
        r
    }

    /// The five digits of the chunk, the most significant one first.
    pub fn to_digits(&self) -> (r: Vec<Digit>)
        ensures
            r@ == self@,
            r@.len() == CHUNK_DIGITS,
    {
        self.to_fixed_ternary().to_digits()
    }

    /// The chunk of a number of at most five digits.
    fn from_short(ternary: &Ternary) -> (r: Self)
        requires
            ternary@.len() <= CHUNK_DIGITS,
        ensures
            r@ == padded(ternary@, CHUNK_DIGITS as nat),
    {
        proof {
            lemma_pow3_5();
            lemma_value_fits(ternary@);
            lemma_fits_monotonic(value(ternary@), ternary@.len(), CHUNK_DIGITS as nat);
        }
        let stored: i8 = ternary.short_value() as i8;
        proof {
            let wanted = padded(ternary@, CHUNK_DIGITS as nat);
            lemma_value_padded(ternary@, CHUNK_DIGITS as nat);
            lemma_fixed_digits_of_value(wanted);
        }
        TritsChunk(stored)
    }

    /// The chunk of the same value as `ternary`, which has at most five
    /// digits; zeros are added on the left of a shorter one.
    ///
    /// Fails with `LengthExceeded` exactly when `ternary` has more than
    /// five digits, leading zeros included.
    pub fn from_ternary(ternary: Ternary) -> (r: Result<Self, TernaryError>)
        ensures
            r.is_ok() == (ternary@.len() <= CHUNK_DIGITS),
            match r {
                Ok(chunk) => chunk@ == padded(ternary@, CHUNK_DIGITS as nat),
                Err(e) => e == TernaryError::LengthExceeded,
            },
    {
        if ternary.log() > CHUNK_DIGITS {
            return Err(TernaryError::LengthExceeded);
        }
        Ok(Self::from_short(&ternary))
    }
}

/// The digits that a row of chunks holds: the five digits of each chunk,
/// one chunk after the other.
pub open spec fn chunk_digits(chunks: Seq<TritsChunk>) -> Seq<Digit>
    decreases chunks.len(),
{
    if chunks.len() == 0 {
        Seq::empty()
    } else {
        chunk_digits(chunks.drop_last()) + chunks.last()@
    }
}

/// A balanced ternary number of any length stored in chunks of five
/// digits, one byte each, where a [`Ternary`] takes one byte for each
/// digit. The view is the sequence of all digits held, whose length is a
/// multiple of five.
///
/// This type stores numbers; to compute with one, turn it into a
/// [`Ternary`].
#[derive(Debug, PartialEq, Eq, PartialOrd, Ord, Hash, Default)]
pub struct DataTernary {
    chunks: Vec<TritsChunk>,
}

impl View for DataTernary {
    type V = Seq<Digit>;

    closed spec fn view(&self) -> Seq<Digit> {
        chunk_digits(self.chunks@)
    }
}

impl Clone for DataTernary {
    fn clone(&self) -> (r: Self)
        ensures
            r@ == self@,
    {
        let n = self.chunks.len();
        let mut chunks: Vec<TritsChunk> = Vec::new();
        let mut i: usize = 0;
        while i < n
            invariant
                n == self.chunks.len(),
                i <= n,
                chunks@ == self.chunks@.take(i as int),
            decreases n - i,
        {
            chunks.push(self.chunks[i]);
            assert(self.chunks@.take(i + 1) =~= self.chunks@.take(i as int).push(
                self.chunks@[i as int],
            ));
            i += 1;
        }
        assert(self.chunks@.take(n as int) =~= self.chunks@);
        DataTernary { chunks }
    }
}

/// A row of chunks holds five digits for each chunk.
pub proof fn lemma_chunk_digits_len(chunks: Seq<TritsChunk>)
    ensures
        chunk_digits(chunks).len() == CHUNK_DIGITS * chunks.len(),
    decreases chunks.len(),
{
    if chunks.len() > 0 {
        lemma_chunk_digits_len(chunks.drop_last());
        chunks.last().lemma_len();
    }
}

impl DataTernary {
    /// The number of digits held is a multiple of five.
    pub proof fn lemma_len(self)
        ensures
            self@.len() % CHUNK_DIGITS as nat == 0,
    {
        lemma_chunk_digits_len(self.chunks@);
    }

    /// Stores a number: its digits, with zeros added on the left up to the
    /// next multiple of five above their count, cut into chunks.
    pub fn from_ternary(ternary: Ternary) -> (r: Self)
        requires
            ternary@.len() + CHUNK_DIGITS <= usize::MAX,
        ensures
            r@ == padded(ternary@, chunked_len(ternary@.len())),
            value(r@) == value(ternary@),
    {
        let len = ternary.log();
        let diff = CHUNK_DIGITS - (len % CHUNK_DIGITS);
        let aligned = ternary.with_length(len + diff);
        let digits = aligned.to_digit_slice();
        let total = digits.len();
        let mut chunks: Vec<TritsChunk> = Vec::new();
        let mut start: usize = 0;
        while start < total
            invariant
                total == digits@.len(),
                start <= total,
                (total - start) % 5 == 0,
                chunk_digits(chunks@) == digits@.take(start as int),
            decreases total - start,
        {
            let piece = copy_digits(digits, start, start + CHUNK_DIGITS);
            let chunk = TritsChunk::from_short(&Ternary::new(piece));
            let ghost before = chunks@;
            chunks.push(chunk);
            proof {
                assert(chunks@.drop_last() =~= before);
                assert(digits@.take(start + 5) =~= digits@.take(start as int) + digits@.subrange(
                    start as int,
                    start + 5,
                ));
            }
            start += CHUNK_DIGITS;
        }
        proof {
            assert(digits@.take(total as int) =~= digits@);
            lemma_value_padded(ternary@, chunked_len(ternary@.len()));
        }
        DataTernary { chunks }
    }

    /// All digits held, the five of each chunk in turn.
    fn all_digits(&self) -> (r: Vec<Digit>)
        ensures
            r@ == self@,
    {
        let n = self.chunks.len();
        let mut digits: Vec<Digit> = Vec::new();
        let mut i: usize = 0;
        while i < n
            invariant
                n == self.chunks.len(),
                i <= n,
                digits@ == chunk_digits(self.chunks@.take(i as int)),
            decreases n - i,
        {
            let mut piece = self.chunks[i].to_digits();
            digits.append(&mut piece);
            proof {
                let next = self.chunks@.take(i + 1);
                assert(next.drop_last() =~= self.chunks@.take(i as int));
            }
            i += 1;
        }
        assert(self.chunks@.take(n as int) =~= self.chunks@);
        digits
    }

    /// The number stored, without leading zeros.
    pub fn to_ternary(&self) -> (r: Ternary)
        ensures
            r@ == trimmed(self@),
            value(r@) == value(self@),
    {
        proof {
            lemma_trimmed(self@);
        }
        Ternary::new(self.all_digits()).trim()
    }

    /// The number stored, put together from the five digits of each chunk
    /// and then freed of its leading zeros.
    pub fn to_fixed_ternary(&self) -> (r: Ternary)
        ensures
            r@ == trimmed(self@),
            value(r@) == value(self@),
    {
        proof {
            lemma_trimmed(self@);
        }
        Ternary::new(self.all_digits()).trim()
    }

    /// The digits of the number stored, without leading zeros.
    pub fn to_digits(&self) -> (r: Vec<Digit>)
        ensures
            r@ == trimmed(self@),
    {
        self.to_ternary().to_digits()
    }

    /// Stores the number of value `from`: its shortest writing, extended
    /// and cut into chunks as [`DataTernary::from_ternary`] does.
    pub fn from_dec(from: i64) -> (r: Self)
        ensures
            r@ == padded(balanced(from as int), chunked_len(balanced(from as int).len())),
            value(r@) == from,
    {
        let shortest = Ternary::from_dec(from);
        proof {
            lemma_canonical_len(shortest@);
            lemma_pow3_40();
            assert(pow3(41) == 3 * pow3(40));
            if shortest@.len() > 41 {
                lemma_fits_monotonic(from as int, 41, (shortest@.len() - 1) as nat);
            }
        }
        Self::from_ternary(shortest)
    }

    /// The value of the number stored.
    ///
    /// Fails with `Overflow` exactly when the value lies outside the range
    /// of `i64`.
    pub fn to_dec(&self) -> (r: Result<i64, TernaryError>)
        ensures
            in_i64(value(self@)) ==> r == Ok::<i64, TernaryError>(value(self@) as i64),
            !in_i64(value(self@)) ==> r == Err::<i64, TernaryError>(TernaryError::Overflow),
    {
        self.to_ternary().to_dec()
    }

    /// The text of all digits held, leading zeros included.
    pub fn to_string(&self) -> (r: String)
        ensures
            r@ == text_of_digits(self@),
    {
        Ternary::new(self.all_digits()).to_string()
    }
}

/// Forty balanced ternary digits stored as their value in one 64-bit
/// integer. The view is the forty digits.
#[derive(Copy, Clone, Debug, PartialEq, Eq, Structural)]
pub struct Big(i64);

impl View for Big {
    type V = Seq<Digit>;

    closed spec fn view(&self) -> Seq<Digit> {
        fixed_digits(self.0 as int, BIG_DIGITS as nat)
    }
}

impl Big {
    #[verifier::type_invariant]
    spec fn fits_forty_digits(self) -> bool {
        fits(self.0 as int, BIG_DIGITS as nat)
    }

    /// The number has exactly forty digits.
    pub proof fn lemma_len(self)
        ensures
            self@.len() == BIG_DIGITS,
    {
        lemma_fixed_digits(self.0 as int, BIG_DIGITS as nat);
    }

    /// The number of value `from`.
    ///
    /// Fails with `LengthExceeded` exactly when `from` cannot be written
    /// with forty digits, that is when `|from| > (3^40 - 1) / 2`.
    pub fn from_dec(from: i64) -> (r: Result<Self, TernaryError>)
        ensures
            r.is_ok() == fits(from as int, BIG_DIGITS as nat),
            match r {
                Ok(big) => big@ == fixed_digits(from as int, BIG_DIGITS as nat) && value(big@)
                    == from,
                Err(e) => e == TernaryError::LengthExceeded,
            },
    {
        proof {
            lemma_pow3_40();
            lemma_fixed_digits(from as int, BIG_DIGITS as nat);
        }
        if from < -6078832729528464400 || from > 6078832729528464400 {
            return Err(TernaryError::LengthExceeded);
        }
        Ok(Big(from))
    }

    /// The value of the number.
    pub fn to_dec(&self) -> (r: i64)
        ensures
            r == value(self@),
    {
        proof {
            use_type_invariant(self);
            lemma_fixed_digits(self.0 as int, BIG_DIGITS as nat);
        }
        self.0
    }

    /// The number of forty digits, all of them kept.
    fn from_forty(ternary: &Ternary) -> (r: Self)
        requires
            ternary@.len() == BIG_DIGITS,
        ensures
            r@ == ternary@,
    {
        proof {
            lemma_value_fits(ternary@);
            lemma_fixed_digits_of_value(ternary@);
        }
        Big(ternary.short_value())
    }

    /// The number of the same value as `ternary`.
    ///
    /// Fails with `Overflow` where the value lies outside the range of
    /// `i64`, and else with `LengthExceeded` exactly when it cannot be
    /// written with forty digits.
    pub fn from_ternary(ternary: Ternary) -> (r: Result<Self, TernaryError>)
        ensures
            r.is_ok() == fits(value(ternary@), BIG_DIGITS as nat),
            match r {
                Ok(big) => big@ == fixed_digits(value(ternary@), BIG_DIGITS as nat) && value(big@)
                    == value(ternary@),
                Err(e) => e == if in_i64(value(ternary@)) {
                    TernaryError::LengthExceeded
                } else {
                    TernaryError::Overflow
                },
            },
    {
        proof {
            lemma_pow3_40();
        }
        match ternary.to_dec() {
            Ok(dec) => Self::from_dec(dec),
            Err(e) => Err(e),
        }
    }

    /// The forty digits of the number.
    pub fn to_ternary(&self) -> (r: Ternary)
        ensures
            r@ == self@,
            r@.len() == BIG_DIGITS,
    {
        let shortest = Ternary::from_dec(self.to_dec());
        let r = shortest.with_length(BIG_DIGITS);
        proof {
            use_type_invariant(self);
            lemma_fixed_digits(self.0 as int, BIG_DIGITS as nat);
            lemma_canonical_len(shortest@);
            if shortest@.len() > BIG_DIGITS {
                lemma_fits_monotonic(
                    value(shortest@),
                    BIG_DIGITS as nat,
                    (shortest@.len() - 1) as nat,
                );
            }
            lemma_value_padded(shortest@, BIG_DIGITS as nat);
            lemma_unique_fixed(r@, self@);
        }
        r
    }
}

impl DigitOperate for Big {
    open spec fn digits(&self) -> Seq<Digit> {
        self@
    }

    fn to_digits(&self) -> (r: Vec<Digit>) {
        self.to_ternary().to_digits()
    }

    fn digit(&self, index: usize) -> (r: Option<Digit>) {
        self.to_ternary().digit(index)
    }

    fn each<F: Fn(Digit) -> Digit>(&self, f: F) -> (r: Self) {
        let digits = self.to_ternary();
        assert(digits.digits() == self.digits());
        Self::from_forty(&digits.each(f))
    }

    fn each_with<F: Fn(Digit, Digit) -> Digit>(&self, f: F, other: Digit) -> (r: Self) {
        let digits = self.to_ternary();
        assert(digits.digits() == self.digits());
        Self::from_forty(&digits.each_with(f, other))
    }

    fn each_zip<F: Fn(Digit, Digit) -> Digit>(&self, f: F, other: Self) -> (r: Self) {
        let left = self.to_ternary();
        let right = other.to_ternary();
        assert(left.digits() == self.digits() && right.digits() == other.digits());
        Self::from_forty(&left.each_zip(f, right))
    }

    fn each_zip_carry<F: Fn(Digit, Digit, Digit) -> (Digit, Digit)>(&self, f: F, other: Self) -> (r:
        Self) {
        let left = self.to_ternary();
        let right = other.to_ternary();
        assert(left.digits() == self.digits() && right.digits() == other.digits());
        let t = left.each_zip_carry(f, right);
        let r = Self::from_forty(&t);
        proof {
            let carries = choose|carries: Seq<Digit>|
                carry_chain(
                    f,
                    longer(self@, other@),
                    shorter_padded(self@, other@),
                    t.digits(),
                    carries,
                );
            assert(carry_chain(
                f,
                longer(self.digits(), other.digits()),
                shorter_padded(self.digits(), other.digits()),
                r.digits(),
                carries,
            ));
        }
        r
    }
}

} // verus!
