use balanced_ternary::{Digit, DigitOperate, Ternary, TernaryError, Tryte};

#[test]
fn five_is_plus_minus_minus() {
    assert_eq!(Ternary::parse("+--").unwrap().to_dec(), Ok(5));
    assert_eq!(Ternary::from_dec(5).to_string(), "+--");
}

#[test]
fn minus_121_is_five_minus_signs() {
    assert_eq!(Ternary::from_dec(-121).to_string(), "-----");
}

#[test]
fn conjunction_of_nine_digits() {
    let long = Ternary::parse("---000+++").unwrap();
    let other = Ternary::parse("-0+-0+-0+").unwrap();
    assert_eq!(long.each_zip(Digit::bitand, other.clone()).to_string(), "----00-0+");
    assert_eq!(long.bitand(&other).to_string(), "----00-0+");
}

#[test]
fn conjunction_with_a_shorter_operand() {
    let short = Ternary::parse("-0+").unwrap();
    let long = Ternary::parse("---000+++").unwrap();
    // The shorter operand counts as "000000-0+", whichever side it is on.
    assert_eq!(short.each_zip(Digit::bitand, long.clone()).to_string(), "---000-0+");
    assert_eq!(long.each_zip(Digit::bitand, short.clone()).to_string(), "---000-0+");
}

#[test]
fn plus_and_plus_run_over() {
    assert_eq!(Digit::Pos.add(Digit::Pos).to_string(), "+-");
}

#[test]
fn a_digit_divided_by_zero_fails() {
    assert_eq!(Digit::Neg.div(Digit::Zero), Err(TernaryError::DivideByZero));
}

#[test]
fn a_tryte_of_six_digits_ends_at_364() {
    assert_eq!(Tryte::<6>::from_i64(364).unwrap().to_string(), "++++++");
    assert_eq!(Tryte::<6>::from_i64(365), Err(TernaryError::LengthExceeded));
}

#[test]
fn digits_are_ordered_by_value() {
    assert!(Digit::Neg < Digit::Zero);
    assert!(Digit::Zero < Digit::Pos);
    assert!(Digit::Neg < Digit::Pos);
    assert!(Digit::Pos >= Digit::Pos);
    assert_eq!(Digit::Neg.max(Digit::Pos), Digit::Pos);
    let mut digits = vec![Digit::Pos, Digit::Neg, Digit::Zero];
    digits.sort();
    assert_eq!(digits, vec![Digit::Neg, Digit::Zero, Digit::Pos]);
    for a in [Digit::Neg, Digit::Zero, Digit::Pos] {
        for b in [Digit::Neg, Digit::Zero, Digit::Pos] {
            assert_eq!(a < b, a.to_i8() < b.to_i8());
            assert_eq!(a.bitand(b), a.min(b));
            assert_eq!(a.bitor(b), a.max(b));
        }
    }
}
