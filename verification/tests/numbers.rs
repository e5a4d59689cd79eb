use balanced_ternary::{Digit, DigitOperate, Ternary, Tryte};
use std::str::FromStr;

#[test]
fn test_ternary() {
    let repr5 = Ternary::new(vec![Digit::Pos, Digit::Neg, Digit::Neg]);
    assert_eq!(repr5.to_dec().unwrap(), 5);
    let repr5 = Ternary::from_dec(5);
    assert_eq!(repr5.to_dec().unwrap(), 5);

    let repr13 = Ternary::new(vec![Digit::Pos, Digit::Pos, Digit::Pos]);
    assert_eq!(repr13.to_dec().unwrap(), 13);

    let repr14 = Ternary::parse("+---").unwrap();
    let repr15 = Ternary::parse("+--0").unwrap();
    assert_eq!(repr14.to_dec().unwrap(), 14);
    assert_eq!(repr15.to_dec().unwrap(), 15);
    assert_eq!(repr14.to_string(), "+---");
    assert_eq!(repr15.to_string(), "+--0");

    let repr120 = Ternary::from_dec(120);
    assert_eq!(repr120.to_dec().unwrap(), 120);
    assert_eq!(repr120.to_string(), "++++0");
    let repr121 = Ternary::from_dec(121);
    assert_eq!(repr121.to_dec().unwrap(), 121);
    assert_eq!(repr121.to_string(), "+++++");

    let repr_neg_5 = Ternary::parse("-++").unwrap();
    assert_eq!(repr_neg_5.to_dec().unwrap(), -5);
    assert_eq!(repr_neg_5.to_string(), "-++");

    let repr_neg_5 = Ternary::from_dec(-5);
    assert_eq!(repr_neg_5.to_dec().unwrap(), -5);
    assert_eq!(repr_neg_5.to_string(), "-++");

    let repr_neg_121 = Ternary::from_dec(-121);
    assert_eq!(repr_neg_121.to_dec().unwrap(), -121);
    assert_eq!(repr_neg_121.to_string(), "-----");

    let test = Ternary::from_dec(18887455);
    assert_eq!(test.to_dec().unwrap(), 18887455);
    assert_eq!(test.to_string(), "++00--0--+-0++0+");

    let unbalanced = Ternary::from_unbalanced("12").unwrap();
    assert_eq!(unbalanced.to_dec().unwrap(), 5);
    assert_eq!(unbalanced.to_string(), "+--");

    let unbalanced = Ternary::from_unbalanced("-12").unwrap();
    assert_eq!(unbalanced.to_dec().unwrap(), -5);
    assert_eq!(unbalanced.to_string(), "-++");

    let unbalanced = Ternary::from_dec(121);
    assert_eq!(unbalanced.to_unbalanced().unwrap(), "11111");
    assert_eq!(unbalanced.to_string(), "+++++");
}

#[test]
fn test_each() {
    let ternary = Ternary::parse("+0-").unwrap();
    assert_eq!(ternary.each(Digit::possibly).to_string(), "++-");
}

#[test]
fn test_operations() {
    fn test_ternary_eq(a: Ternary, b: &str) {
        let repr = Ternary::parse(b).unwrap();
        assert_eq!(a.to_string(), repr.to_string());
    }
    fn test_binary_op(a: &Ternary, f: impl Fn(Digit, Digit) -> Digit, b: &Ternary, c: &str) {
        test_ternary_eq(a.each_zip(f, b.clone()), c);
    }

    let short = Ternary::parse("-0+").unwrap();
    let long = Ternary::parse("---000+++").unwrap();
    let other = Ternary::parse("-0+-0+-0+").unwrap();

    // K3
    test_ternary_eq(short.each(Digit::not), "+0-");
    test_binary_op(&long, Digit::bitand, &other, "----00-0+");
    test_binary_op(&long, Digit::bitor, &other, "-0+00++++");
    test_binary_op(&long, Digit::bitxor, &other, "-0+000+0-");
    test_binary_op(&long, Digit::k3_equiv, &other, "+0-000-0+");
    test_binary_op(&long, Digit::k3_imply, &other, "+++00+-0+");

    // HT
    test_ternary_eq(short.each(Digit::ht_not), "+--");
    test_binary_op(&long, Digit::ht_imply, &other, "+++-++-0+");

    // BI3
    test_binary_op(&long, Digit::bi3_and, &other, "-0-000-0+");
    test_binary_op(&long, Digit::bi3_or, &other, "-0+000+0+");
    test_binary_op(&long, Digit::bi3_imply, &other, "+0+000-0+");

    // L3
    test_ternary_eq(short.each(Digit::possibly), "-++");
    test_ternary_eq(short.each(Digit::necessary), "--+");
    test_ternary_eq(short.each(Digit::contingently), "-+-");
    test_binary_op(&long, Digit::l3_imply, &other, "+++0++-0+");

    // PARA / RM3
    test_binary_op(&long, Digit::rm3_imply, &other, "+++-0+--+");
    test_binary_op(&long, Digit::para_imply, &other, "+++-0+-0+");

    // Other operations
    test_ternary_eq(short.each(Digit::post), "0+-");
    test_ternary_eq(short.each(Digit::pre), "+-0");
    test_ternary_eq(short.each(Digit::absolute_positive), "+0+");
    test_ternary_eq(short.each(Digit::positive), "00+");
    test_ternary_eq(short.each(Digit::not_negative), "0++");
    test_ternary_eq(short.each(Digit::not_positive), "--0");
    test_ternary_eq(short.each(Digit::negative), "-00");
    test_ternary_eq(short.each(Digit::absolute_negative), "-0-");

    test_binary_op(&long, Digit::mul, &other, "+0-000-0+");
}

#[test]
fn test_from_str() {
    let ternary = Ternary::from_str("+-0").unwrap();
    assert_eq!(ternary.to_string(), "+-0");

    assert!(Ternary::from_str("+-x").is_err());

    let tryte = Tryte::<6>::from_str("+-0").unwrap();
    assert_eq!(tryte.to_string(), "000+-0");
    assert!(Tryte::<6>::from_str("+-x").is_err());
}

#[test]
fn test_ternary_ops() {
    let repr9 = Ternary::parse("+00").unwrap();
    let repr4 = Ternary::parse("++").unwrap();
    let repr13 = repr9.add(&repr4).unwrap();
    let repr17 = repr13.add(&repr4).unwrap();
    let repr34 = repr17.add(&repr17).unwrap();

    assert_eq!(repr13.to_string(), "+++");
    assert_eq!(repr17.to_string(), "+-0-");
    assert_eq!(repr34.to_string(), "++-+");

    let repr30 = repr34.sub(&repr4).unwrap();
    assert_eq!(repr30.to_dec().unwrap(), 30);
    assert_eq!(repr30.to_string(), "+0+0");

    let repr120 = repr30.mul(&repr4).unwrap();
    assert_eq!(repr120.to_dec().unwrap(), 120);
    assert_eq!(repr120.to_string(), "++++0");

    let repr_neg120 = repr120.neg();
    assert_eq!(repr_neg120.to_dec().unwrap(), -120);
    assert_eq!(repr_neg120.to_string(), "----0");

    let bitwise = Ternary::parse("++00").unwrap().bitand(&Ternary::parse("0000").unwrap());
    assert_eq!(bitwise.to_string(), "0000");

    let bitwise = Ternary::parse("++00").unwrap().bitand(&Ternary::parse("0+00").unwrap());
    assert_eq!(bitwise.to_string(), "0+00");

    let bitwise = Ternary::parse("+000").unwrap().bitor(&Ternary::parse("000-").unwrap());
    assert_eq!(bitwise.to_string(), "+000");

    let bitwise = Ternary::parse("+000").unwrap().bitand(&Ternary::parse("000-").unwrap());
    assert_eq!(bitwise.to_string(), "000-");

    let bitwise = Ternary::parse("+000").unwrap().bitor(&Ternary::parse("000+").unwrap());
    assert_eq!(bitwise.to_string(), "+00+");
}

#[test]
fn test_tryte() {
    let tryte = Tryte::<6>::from_i64(255).unwrap();
    assert_eq!(tryte.to_i64(), 255);
    assert_eq!(tryte.to_string(), "+00++0");

    let tryte = Tryte::<6>::from_i64(16).unwrap();
    assert_eq!(tryte.to_i64(), 16);
    assert_eq!(tryte.to_string(), "00+--+");

    assert_eq!(Tryte::<6>::max().unwrap().to_string(), "++++++");
    assert_eq!(Tryte::<6>::max().unwrap().to_i64(), 364);
    assert_eq!(Tryte::<6>::min().unwrap().to_string(), "------");
    assert_eq!(Tryte::<6>::min().unwrap().to_i64(), -364);
    assert_eq!(Tryte::<6>::zero().unwrap().to_string(), "000000");
    assert_eq!(Tryte::<6>::zero().unwrap().to_i64(), 0);
}
