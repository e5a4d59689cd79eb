use balanced_ternary::{Digit, DigitOperate, Ternary, TernaryError};

fn t(text: &str) -> Ternary {
    Ternary::parse(text).unwrap()
}

/// Adds three digits: the carry and the digit of their sum.
fn full_adder(a: Digit, b: Digit, carry: Digit) -> (Digit, Digit) {
    let sum = a.to_i8() + b.to_i8() + carry.to_i8();
    let (next, digit) = match sum {
        -3 => (-1, 0),
        -2 => (-1, 1),
        2 => (1, -1),
        3 => (1, 0),
        other => (0, other),
    };
    (Digit::from_i8(next).unwrap(), Digit::from_i8(digit).unwrap())
}

#[test]
fn each_keeps_length_and_order() {
    assert_eq!(t("+0-").each(Digit::necessary).to_string(), "+--");
    assert_eq!(t("+0-").each(Digit::positive).to_string(), "+00");
    assert_eq!(t("+0-").each(Digit::not_negative).to_string(), "++0");
    assert_eq!(t("+0-").each(Digit::absolute_negative).to_string(), "-0-");
    assert_eq!(t("").each(Digit::neg).to_string(), "");
    assert_eq!(t("00+").each(|d| d).to_string(), "00+");
}

#[test]
fn each_with_applies_one_constant() {
    assert_eq!(t("+-0").each_with(Digit::mul, Digit::Neg).to_string(), "-+0");
    assert_eq!(t("+-0").each_with(Digit::mul, Digit::Zero).to_string(), "000");
    assert_eq!(t("-0+").each_with(Digit::k3_imply, Digit::Zero).to_string(), "+00");
    assert_eq!(t("-0+").each_with(Digit::bitor, Digit::Zero).to_string(), "00+");
}

#[test]
fn each_zip_works_position_by_position() {
    let a = t("-+0-+0-+0");
    let b = t("---000+++");
    assert_eq!(a.each_zip(Digit::mul, b.clone()).to_string(), "+-0000-+0");
    assert_eq!(a.each_zip(Digit::k3_imply, b.clone()).to_string(), "+-0+00+++");
    assert_eq!(a.each_zip(Digit::bi3_imply, b.clone()).to_string(), "+-0000++0");
    assert_eq!(a.each_zip(Digit::ht_imply, b.clone()).to_string(), "+--+0++++");
    assert_eq!(
        t("---000+++").each_zip(Digit::bitand, t("-0+-0+-0+")).to_string(),
        "----00-0+"
    );
}

#[test]
fn each_zip_pads_the_shorter_operand_with_zeros() {
    // "-0+" counts as "000000-0+".
    assert_eq!(t("---000+++").each_zip(Digit::bitand, t("-0+")).to_string(), "---000-0+");
    assert_eq!(t("---000+++").each_zip(Digit::bitor, t("-0+")).to_string(), "000000+++");
    assert_eq!(t("+").each_zip(Digit::mul, t("")).to_string(), "0");
    assert_eq!(t("").each_zip(Digit::mul, t("")).to_string(), "");
}

#[test]
fn each_zip_hands_the_longer_operand_first() {
    // Equal lengths: the operands keep their places.
    assert_eq!(t("+").each_zip(Digit::k3_imply, t("-")).to_string(), "-");
    assert_eq!(t("-").each_zip(Digit::k3_imply, t("+")).to_string(), "+");
    // `self` shorter: the operation gets the digits of `other` first, so
    // the result is that of the call with the operands exchanged.
    let short = t("+");
    let long = t("0-");
    assert_eq!(
        short.each_zip(Digit::k3_imply, long.clone()).to_string(),
        long.each_zip(Digit::k3_imply, short.clone()).to_string()
    );
    assert_eq!(long.each_zip(Digit::k3_imply, short.clone()).to_string(), "0+");
    assert_eq!(short.each_zip(Digit::k3_imply, long.clone()).to_string(), "0+");
    // With the places kept, "0+" implies "0-" would be "0-".
    assert_eq!(t("0+").each_zip(Digit::k3_imply, t("0-")).to_string(), "0-");
}

#[test]
fn each_zip_carry_threads_the_carry_from_the_right() {
    let sum = t("0+++").each_zip_carry(full_adder, t("00++"));
    assert_eq!(sum.to_string(), "+-0-");
    assert_eq!(sum.to_dec(), Ok(17));
    let cancel = t("+-0").each_zip_carry(full_adder, t("-+0")).trim();
    assert_eq!(cancel.to_string(), t("+-0").add(&t("-+0")).unwrap().to_string());
    assert_eq!(cancel.to_string(), "0");
    let padded = t("+").each_zip_carry(full_adder, t("0+-"));
    assert_eq!(padded.to_string(), "0+0");
}

#[test]
fn each_zip_carry_drops_the_last_carry() {
    // 13 + 13 = 26 is "+00-"; three digits keep "00-" only.
    assert_eq!(t("+++").each_zip_carry(full_adder, t("+++")).to_string(), "00-");
    assert_eq!(t("").each_zip_carry(full_adder, t("")).to_string(), "");
}

#[test]
fn each_zip_carry_agrees_with_addition_on_wide_operands() {
    for a in -40i64..=40 {
        for b in -40i64..=40 {
            let x = Ternary::from_dec(a).with_length(6);
            let y = Ternary::from_dec(b).with_length(6);
            assert_eq!(x.each_zip_carry(full_adder, y).to_dec(), Ok(a + b));
        }
    }
}

#[test]
fn arithmetic_goes_through_the_values() {
    let nine = t("+00");
    let four = t("++");
    assert_eq!(nine.add(&four).unwrap().to_dec(), Ok(13));
    assert_eq!(nine.sub(&four).unwrap().to_string(), "+--");
    assert_eq!(nine.mul(&four).unwrap().to_dec(), Ok(36));
    assert_eq!(nine.div(&four).unwrap().to_string(), "+-");
    // The result is written anew: leading zeros of the operands are gone.
    assert_eq!(t("000+").add(&t("000+")).unwrap().to_string(), "+-");
    assert_eq!(t("").add(&t("")).unwrap().to_string(), "0");
    assert_eq!(nine.add_digit(Digit::Pos).unwrap().to_string(), "+0+");
    assert_eq!(nine.add_digit(Digit::Neg).unwrap().to_string(), "+0-");
    assert_eq!(nine.sub_digit(Digit::Pos).unwrap().to_string(), "+0-");
    assert_eq!(nine.sub_digit(Digit::Zero).unwrap().to_string(), "+00");
}

#[test]
fn division_rounds_towards_zero() {
    let d = |a: i64, b: i64| Ternary::from_dec(a).div(&Ternary::from_dec(b)).unwrap().to_dec();
    assert_eq!(d(7, 2), Ok(3));
    assert_eq!(d(-7, 2), Ok(-3));
    assert_eq!(d(7, -2), Ok(-3));
    assert_eq!(d(-7, -2), Ok(3));
    assert_eq!(d(0, 5), Ok(0));
    assert_eq!(d(1, 3), Ok(0));
    assert_eq!(d(-1, 3), Ok(0));
    assert_eq!(d(i64::MIN, 1), Ok(i64::MIN));
    assert_eq!(d(i64::MAX, -1), Ok(-i64::MAX));
}

#[test]
fn arithmetic_fails_on_overflow() {
    let max = Ternary::from_dec(i64::MAX);
    let min = Ternary::from_dec(i64::MIN);
    let one = t("+");
    let two = t("+-");
    assert_eq!(max.add(&one), Err(TernaryError::Overflow));
    assert_eq!(min.sub(&one), Err(TernaryError::Overflow));
    assert_eq!(max.mul(&two), Err(TernaryError::Overflow));
    assert_eq!(min.div(&one.neg()), Err(TernaryError::Overflow));
    assert_eq!(max.add_digit(Digit::Pos), Err(TernaryError::Overflow));
    assert_eq!(min.sub_digit(Digit::Pos), Err(TernaryError::Overflow));
    assert_eq!(max.add_digit(Digit::Neg).unwrap().to_dec(), Ok(i64::MAX - 1));
    assert_eq!(max.add(&min).unwrap().to_dec(), Ok(-1));
    // An operand that is itself too large fails the operation.
    let huge = max.concat(&t("0"));
    assert_eq!(huge.add(&one), Err(TernaryError::Overflow));
    assert_eq!(one.sub(&huge), Err(TernaryError::Overflow));
    assert_eq!(huge.mul(&t("0")), Err(TernaryError::Overflow));
    assert_eq!(one.div(&huge), Err(TernaryError::Overflow));
}

#[test]
fn division_by_zero_fails() {
    assert_eq!(t("+00").div(&t("0")), Err(TernaryError::DivideByZero));
    assert_eq!(t("+00").div(&t("000")), Err(TernaryError::DivideByZero));
    assert_eq!(t("+00").div(&t("")), Err(TernaryError::DivideByZero));
    assert_eq!(t("0").div(&t("0")), Err(TernaryError::DivideByZero));
    // The dividend is read first.
    let huge = Ternary::from_dec(i64::MAX).concat(&t("0"));
    assert_eq!(huge.div(&t("0")), Err(TernaryError::Overflow));
}

#[test]
fn connectives_work_on_digits_not_on_values() {
    assert_eq!(t("++00").bitand(&t("0+00")).to_string(), "0+00");
    assert_eq!(t("+000").bitor(&t("000+")).to_string(), "+00+");
    assert_eq!(t("+0-").bitxor(&t("+0-")).to_string(), "-0-");
    assert_eq!(t("-0+").bitxor(&t("+++")).to_string(), "+0-");
    // Leading zeros are kept, and the shorter operand is padded.
    assert_eq!(t("00+").bitand(&t("+")).to_string(), "00+");
    assert_eq!(t("+").bitor(&t("-0-")).to_string(), "00+");
}
