use balanced_ternary::{
    dter, Big, DataTernary, Digit, DigitOperate, ParseTernaryError, Ternary, TernaryError,
    TritsChunk,
};

fn t(text: &str) -> Ternary {
    Ternary::parse(text).unwrap()
}

#[test]
fn a_chunk_holds_five_digits() {
    let chunk = TritsChunk::from_dec(42).unwrap();
    assert_eq!(chunk.to_dec(), 42);
    assert_eq!(chunk.to_ternary().to_string(), "+---0");
    assert_eq!(chunk.to_ternary().to_dec(), Ok(42));
    let small = TritsChunk::from_dec(-5).unwrap();
    assert_eq!(small.to_ternary().to_string(), "-++");
    assert_eq!(small.to_fixed_ternary().to_string(), "00-++");
    assert_eq!(small.to_fixed_ternary().to_digit_slice().len(), 5);
    assert_eq!(small.to_digits().len(), 5);
    assert_eq!(
        small.to_digits(),
        vec![Digit::Zero, Digit::Zero, Digit::Neg, Digit::Pos, Digit::Pos]
    );
    assert_eq!(TritsChunk::from_dec(0).unwrap().to_fixed_ternary().to_string(), "00000");
    assert_eq!(TritsChunk::from_dec(0).unwrap().to_ternary().to_string(), "0");
    for v in -121i8..=121 {
        let chunk = TritsChunk::from_dec(v).unwrap();
        assert_eq!(chunk.to_dec(), v);
        assert_eq!(chunk.to_fixed_ternary().to_dec(), Ok(v as i64));
        assert_eq!(TritsChunk::from_ternary(chunk.to_fixed_ternary()), Ok(chunk));
        assert_eq!(TritsChunk::from_ternary(chunk.to_ternary()), Ok(chunk));
    }
}

#[test]
fn a_chunk_rejects_what_five_digits_cannot_hold() {
    assert_eq!(TritsChunk::from_dec(121).unwrap().to_fixed_ternary().to_string(), "+++++");
    assert_eq!(TritsChunk::from_dec(-121).unwrap().to_fixed_ternary().to_string(), "-----");
    assert_eq!(TritsChunk::from_dec(122), Err(TernaryError::LengthExceeded));
    assert_eq!(TritsChunk::from_dec(-122), Err(TernaryError::LengthExceeded));
    assert_eq!(TritsChunk::from_dec(127), Err(TernaryError::LengthExceeded));
    assert_eq!(TritsChunk::from_dec(-128), Err(TernaryError::LengthExceeded));
    assert_eq!(TritsChunk::from_ternary(t("+-----")), Err(TernaryError::LengthExceeded));
    assert_eq!(TritsChunk::from_ternary(t("00000+")), Err(TernaryError::LengthExceeded));
    assert_eq!(TritsChunk::from_ternary(t("")).unwrap().to_dec(), 0);
    assert_eq!(TritsChunk::from_ternary(t("+-")).unwrap().to_fixed_ternary().to_string(), "000+-");
}

#[test]
fn data_ternary_keeps_a_number() {
    let ternary = Ternary::from_dec(42);
    let data = DataTernary::from_ternary(ternary.clone());
    assert_eq!(data.to_dec(), Ok(42));
    assert_eq!(data.to_ternary(), ternary);
    assert_eq!(data.to_fixed_ternary().to_dec(), Ok(42));
    assert_eq!(
        data.to_digits(),
        vec![Digit::Pos, Digit::Neg, Digit::Neg, Digit::Neg, Digit::Zero]
    );
    assert_eq!(DataTernary::from_dec(42), data);
    assert_eq!(data.clone(), data);
}

#[test]
fn data_ternary_pads_to_the_next_multiple_of_five() {
    assert_eq!(dter("+-0-").unwrap().to_string(), "0+-0-");
    assert_eq!(dter("+").unwrap().to_string(), "0000+");
    // A length that is a multiple of five gets one more chunk.
    assert_eq!(dter("+---0").unwrap().to_string(), "00000+---0");
    assert_eq!(dter("").unwrap().to_string(), "00000");
    assert_eq!(dter("+0000+").unwrap().to_string(), "0000+0000+");
    assert_eq!(dter("+0x"), Err(ParseTernaryError { position: 2, found: Some('x') }));
}

#[test]
fn data_ternary_puts_several_chunks_together() {
    let data = DataTernary::from_dec(244);
    assert_eq!(data.to_string(), "0000+0000+");
    assert_eq!(data.to_ternary().to_string(), "+0000+");
    assert_eq!(data.to_fixed_ternary().to_string(), "+0000+");
    assert_eq!(data.to_dec(), Ok(244));
    for n in [0, 1, -1, 121, 122, -122, 364, 365, 18887455, -18887455, i64::MAX, i64::MIN] {
        let data = DataTernary::from_dec(n);
        assert_eq!(data.to_dec(), Ok(n));
        assert_eq!(data.to_ternary(), Ternary::from_dec(n));
        assert_eq!(data.to_digits(), Ternary::from_dec(n).to_digits());
        assert_eq!(data.to_string().len() % 5, 0);
    }
    let long = t("+-0+-0+-0+-0+-0+-0+-0+-0+-0+-0+-0+-0+-0+-0+-0+-0+-0");
    let data = DataTernary::from_ternary(long.clone());
    assert_eq!(data.to_ternary(), long);
    assert_eq!(data.to_string(), format!("0000{}", long.to_string()));
    assert_eq!(data.to_dec(), Err(TernaryError::Overflow));
}

#[test]
fn big_holds_forty_digits() {
    let big = Big::from_dec(42).unwrap();
    assert_eq!(big.to_dec(), 42);
    assert_eq!(big.to_ternary().log(), 40);
    assert_eq!(big.to_ternary().trim().to_string(), "+---0");
    assert_eq!(big.to_digits().len(), 40);
    assert_eq!(big.digit(0), Some(Digit::Zero));
    assert_eq!(big.digit(1), Some(Digit::Neg));
    assert_eq!(big.digit(39), Some(Digit::Zero));
    assert_eq!(big.digit(40), None);
    assert_eq!(
        Big::from_dec(6078832729528464400).unwrap().to_ternary().to_string(),
        "+".repeat(40)
    );
    assert_eq!(Big::from_dec(-6078832729528464400).unwrap().to_dec(), -6078832729528464400);
    assert_eq!(Big::from_dec(6078832729528464401), Err(TernaryError::LengthExceeded));
    assert_eq!(Big::from_dec(-6078832729528464401), Err(TernaryError::LengthExceeded));
    assert_eq!(Big::from_dec(i64::MAX), Err(TernaryError::LengthExceeded));
    assert_eq!(Big::from_ternary(t("+--")).unwrap().to_dec(), 5);
    assert_eq!(Big::from_ternary(t(&"0".repeat(60))).unwrap().to_dec(), 0);
    assert_eq!(
        Big::from_ternary(Ternary::from_dec(i64::MAX)),
        Err(TernaryError::LengthExceeded)
    );
    assert_eq!(
        Big::from_ternary(Ternary::from_dec(i64::MAX).concat(&t("0"))),
        Err(TernaryError::Overflow)
    );
}

#[test]
fn big_combinators_work_on_all_forty_digits() {
    let big = Big::from_dec(5).unwrap();
    // Forty digits all negated.
    assert_eq!(big.each(Digit::neg).to_dec(), -5);
    // The leading zeros become `+` as well.
    assert_eq!(
        big.each(Digit::possibly).to_ternary().to_string(),
        format!("{}+--", "+".repeat(37))
    );
    assert_eq!(big.each_with(Digit::mul, Digit::Neg).to_dec(), -5);
    let other = Big::from_dec(4).unwrap();
    assert_eq!(big.each_zip(Digit::bitor, other).to_dec(), 13);
    let adder = |a: Digit, b: Digit, c: Digit| {
        let sum = a.to_i8() + b.to_i8() + c.to_i8();
        let (next, digit) = match sum {
            -3 => (-1, 0),
            -2 => (-1, 1),
            2 => (1, -1),
            3 => (1, 0),
            other => (0, other),
        };
        (Digit::from_i8(next).unwrap(), Digit::from_i8(digit).unwrap())
    };
    assert_eq!(big.each_zip_carry(adder, other).to_dec(), 9);
}
