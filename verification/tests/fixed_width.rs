use balanced_ternary::{tryte, Digit, DigitOperate, ParseTernaryError, Ternary, TernaryError, Tryte};
use std::str::FromStr;

fn t(text: &str) -> Ternary {
    Ternary::parse(text).unwrap()
}

fn six(text: &str) -> Tryte<6> {
    Tryte::<6>::from_ternary(&t(text)).unwrap()
}

#[test]
fn seven_significant_digits_do_not_fit_six() {
    assert_eq!(Tryte::<6>::from_ternary(&t("+------")), Err(TernaryError::LengthExceeded));
    assert_eq!(Tryte::<6>::from_ternary(&t("-000000")), Err(TernaryError::LengthExceeded));
    assert_eq!(Tryte::<6>::from_ternary(&t("00+------")), Err(TernaryError::LengthExceeded));
}

#[test]
fn six_or_fewer_significant_digits_fit_and_round_trip() {
    for text in ["++++++", "------", "+0000-", "000000", "0+-0+-"] {
        let tryte = Tryte::<6>::from_ternary(&t(text)).unwrap();
        assert_eq!(tryte.to_ternary(), t(text));
        assert_eq!(tryte.to_string(), text);
        assert_eq!(tryte.to_i64(), t(text).to_dec().unwrap());
    }
    for text in ["", "0", "+", "+-0", "-++++"] {
        let tryte = Tryte::<6>::from_ternary(&t(text)).unwrap();
        assert_eq!(tryte.to_ternary(), t(text).with_length(6));
        assert_eq!(tryte.to_ternary().to_dec(), t(text).to_dec());
    }
}

#[test]
fn leading_zeros_are_not_significant() {
    let tryte = Tryte::<6>::from_ternary(&t("0000000+-")).unwrap();
    assert_eq!(tryte.to_string(), "0000+-");
    let tryte = Tryte::<6>::from_ternary(&t("000++++++")).unwrap();
    assert_eq!(tryte.to_string(), "++++++");
    let tryte = Tryte::<6>::from_ternary(&t("0000000000")).unwrap();
    assert_eq!(tryte.to_string(), "000000");
}

#[test]
fn from_i64_fails_beyond_the_width() {
    assert_eq!(Tryte::<6>::from_i64(364).unwrap().to_string(), "++++++");
    assert_eq!(Tryte::<6>::from_i64(365), Err(TernaryError::LengthExceeded));
    assert_eq!(Tryte::<6>::from_i64(-364).unwrap().to_string(), "------");
    assert_eq!(Tryte::<6>::from_i64(-365), Err(TernaryError::LengthExceeded));
    assert_eq!(Tryte::<6>::from_i64(i64::MAX), Err(TernaryError::LengthExceeded));
    assert_eq!(Tryte::<6>::from_i64(i64::MIN), Err(TernaryError::LengthExceeded));
    assert_eq!(Tryte::<6>::from_i64(0).unwrap().to_string(), "000000");
    for v in -364..=364 {
        assert_eq!(Tryte::<6>::from_i64(v).unwrap().to_i64(), v);
        assert_eq!(i64::from(Tryte::<6>::from_i64(v).unwrap()), v);
    }
    assert_eq!(Tryte::<1>::from_i64(1).unwrap().to_string(), "+");
    assert_eq!(Tryte::<1>::from_i64(2), Err(TernaryError::LengthExceeded));
    assert_eq!(Tryte::<0>::from_i64(0).unwrap().to_string(), "");
    assert_eq!(Tryte::<0>::from_i64(1), Err(TernaryError::LengthExceeded));
}

#[test]
fn forty_digits_are_the_limit() {
    let max = Tryte::<40>::max().unwrap();
    assert_eq!(max.to_i64(), 6078832729528464400);
    assert_eq!(Tryte::<40>::min().unwrap().to_i64(), -6078832729528464400);
    assert_eq!(Tryte::<40>::from_i64(6078832729528464400).unwrap(), max);
    assert_eq!(Tryte::<40>::from_i64(6078832729528464401), Err(TernaryError::LengthExceeded));
    assert_eq!(Tryte::<41>::max(), Err(TernaryError::Overflow));
    assert_eq!(Tryte::<41>::min(), Err(TernaryError::Overflow));
    assert_eq!(Tryte::<41>::zero(), Err(TernaryError::Overflow));
    assert_eq!(Tryte::<41>::new([Digit::Zero; 41]), Err(TernaryError::Overflow));
    assert_eq!(Tryte::<41>::from_i64(0), Err(TernaryError::Overflow));
    assert_eq!(Tryte::<41>::from_ternary(&t("0")), Err(TernaryError::Overflow));
    assert_eq!(Tryte::<64>::from_str("+"), Err(TernaryError::Overflow));
}

#[test]
fn new_keeps_the_digits() {
    let digits = [Digit::Pos, Digit::Zero, Digit::Neg, Digit::Zero, Digit::Pos, Digit::Neg];
    let tryte = Tryte::new(digits).unwrap();
    assert_eq!(tryte.to_digit_slice(), &digits);
    assert_eq!(tryte.to_digits(), digits.to_vec());
    assert_eq!(tryte.to_string(), "+0-0+-");
    assert_eq!(tryte.digit(0), Some(Digit::Neg));
    assert_eq!(tryte.digit(5), Some(Digit::Pos));
    assert_eq!(tryte.digit(6), None);
    let copy = tryte;
    assert_eq!(copy, tryte);
}

#[test]
fn texts_become_trytes() {
    assert_eq!(tryte("+0+0").unwrap().to_string(), "00+0+0");
    assert_eq!(tryte("").unwrap().to_string(), "000000");
    assert_eq!(tryte("+------"), Err(TernaryError::LengthExceeded));
    assert_eq!(
        tryte("+0x0"),
        Err(TernaryError::Parse(ParseTernaryError { position: 2, found: Some('x') }))
    );
    assert_eq!(
        Tryte::<6>::from_str("+++++++?"),
        Err(TernaryError::Parse(ParseTernaryError { position: 7, found: Some('?') }))
    );
    assert_eq!(Tryte::<3>::from_str("0+-0").unwrap().to_string(), "+-0");
}

#[test]
fn tryte_arithmetic_never_cuts_a_result() {
    let a = Tryte::<6>::from_i64(300).unwrap();
    let b = Tryte::<6>::from_i64(64).unwrap();
    assert_eq!(a.add(b).unwrap().to_i64(), 364);
    assert_eq!(a.add(Tryte::<6>::from_i64(65).unwrap()), Err(TernaryError::LengthExceeded));
    assert_eq!(a.sub(b).unwrap().to_i64(), 236);
    assert_eq!(a.neg().sub(Tryte::<6>::from_i64(65).unwrap()), Err(TernaryError::LengthExceeded));
    assert_eq!(a.mul(b), Err(TernaryError::LengthExceeded));
    assert_eq!(b.mul(Tryte::<6>::from_i64(-5).unwrap()).unwrap().to_i64(), -320);
    assert_eq!(a.div(b).unwrap().to_i64(), 4);
    assert_eq!(a.neg().div(b).unwrap().to_i64(), -4);
    assert_eq!(a.div(Tryte::<6>::zero().unwrap()), Err(TernaryError::DivideByZero));
    assert_eq!(a.add(b).unwrap().to_string(), "++++++");
}

#[test]
fn wide_tryte_arithmetic_overflows() {
    let max = Tryte::<40>::max().unwrap();
    let two = Tryte::<40>::from_i64(2).unwrap();
    // Twice the largest value of 40 digits is beyond the 64-bit range.
    assert_eq!(max.add(max), Err(TernaryError::Overflow));
    assert_eq!(max.mul(two), Err(TernaryError::Overflow));
    assert_eq!(max.neg().sub(max), Err(TernaryError::Overflow));
    // One more is within that range, but needs 41 digits.
    assert_eq!(max.add(Tryte::<40>::from_i64(1).unwrap()), Err(TernaryError::LengthExceeded));
    assert_eq!(max.sub(max).unwrap(), Tryte::<40>::zero().unwrap());
}

#[test]
fn tryte_connectives_work_on_digits() {
    let a = six("---000");
    let b = six("-0+-0+");
    assert_eq!(a.bitand(b).to_string(), "----00");
    assert_eq!(a.bitor(b).to_string(), "-0+00+");
    assert_eq!(a.bitxor(b).to_string(), "-0+000");
    assert_eq!(a.neg().to_string(), "+++000");
    assert_eq!(a.not().to_string(), "+++000");
    assert_eq!(a.neg().neg(), a);
}

#[test]
fn tryte_combinators_keep_the_width() {
    let a = six("-0+-0+");
    assert_eq!(a.each(Digit::possibly).to_string(), "-++-++");
    assert_eq!(a.each_with(Digit::mul, Digit::Neg).to_string(), "+0-+0-");
    assert_eq!(a.each_zip(Digit::k3_imply, six("---+++")).to_string(), "+0-+++");
    let adder = |a: Digit, b: Digit, c: Digit| {
        let sum = a.to_i8() + b.to_i8() + c.to_i8();
        let (next, digit) = match sum {
            -3 => (-1, 0),
            -2 => (-1, 1),
            2 => (1, -1),
            3 => (1, 0),
            other => (0, other),
        };
        (Digit::from_i8(next).unwrap(), Digit::from_i8(digit).unwrap())
    };
    let x = Tryte::<6>::from_i64(100).unwrap();
    let y = Tryte::<6>::from_i64(-37).unwrap();
    assert_eq!(x.each_zip_carry(adder, y).to_i64(), 63);
}
