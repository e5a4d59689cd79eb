use balanced_ternary::{trit, Digit, TernaryError};
use std::convert::TryFrom;

const ALL: [Digit; 3] = [Digit::Neg, Digit::Zero, Digit::Pos];

fn digits(text: &str) -> Vec<Digit> {
    text.chars().map(|c| Digit::from_char(c).unwrap()).collect()
}

fn check_unary(f: fn(Digit) -> Digit, row: &str) {
    let expected = digits(row);
    for (i, d) in ALL.iter().enumerate() {
        assert_eq!(f(*d), expected[i], "on {:?}", d);
    }
}

fn check_binary(f: fn(Digit, Digit) -> Digit, table: &str) {
    let expected = digits(table);
    for (i, a) in ALL.iter().enumerate() {
        for (j, b) in ALL.iter().enumerate() {
            assert_eq!(f(*a, *b), expected[3 * i + j], "on {:?}, {:?}", a, b);
        }
    }
}

#[test]
fn characters_and_digits_correspond() {
    assert_eq!(Digit::from_char('-'), Ok(Digit::Neg));
    assert_eq!(Digit::from_char('0'), Ok(Digit::Zero));
    assert_eq!(Digit::from_char('+'), Ok(Digit::Pos));
    for d in ALL {
        assert_eq!(Digit::from_char(d.to_char()), Ok(d));
    }
    assert_eq!(Digit::Neg.to_char(), '-');
    assert_eq!(Digit::Zero.to_char(), '0');
    assert_eq!(Digit::Pos.to_char(), '+');
    assert_eq!(trit('+'), Ok(Digit::Pos));
}

#[test]
fn other_characters_are_invalid_input() {
    for c in ['1', 'x', ' ', 'T', '\u{398}', '\0'] {
        assert_eq!(Digit::from_char(c), Err(TernaryError::InvalidInput));
        assert_eq!(trit(c), Err(TernaryError::InvalidInput));
        assert_eq!(Digit::try_from(c), Err(TernaryError::InvalidInput));
    }
}

#[test]
fn integers_and_digits_correspond() {
    assert_eq!(Digit::from_i8(-1), Ok(Digit::Neg));
    assert_eq!(Digit::from_i8(0), Ok(Digit::Zero));
    assert_eq!(Digit::from_i8(1), Ok(Digit::Pos));
    for d in ALL {
        assert_eq!(Digit::from_i8(d.to_i8()), Ok(d));
        assert_eq!(i8::from(d), d.to_i8());
        assert_eq!(char::from(d), d.to_char());
    }
    for i in [-128i8, -2, 2, 3, 127] {
        assert_eq!(Digit::from_i8(i), Err(TernaryError::InvalidInput));
        assert_eq!(Digit::try_from(i), Err(TernaryError::InvalidInput));
    }
}

#[test]
fn unbalanced_digits_lie_one_above() {
    assert_eq!(Digit::Neg.to_unbalanced(), 0);
    assert_eq!(Digit::Zero.to_unbalanced(), 1);
    assert_eq!(Digit::Pos.to_unbalanced(), 2);
    for d in ALL {
        assert_eq!(Digit::from_unbalanced(d.to_unbalanced()), Ok(d));
    }
    assert_eq!(Digit::from_unbalanced(3), Err(TernaryError::InvalidInput));
    assert_eq!(Digit::from_unbalanced(255), Err(TernaryError::InvalidInput));
}

#[test]
fn unary_tables_are_exact() {
    check_unary(Digit::possibly, "-++");
    check_unary(Digit::necessary, "--+");
    check_unary(Digit::contingently, "-+-");
    check_unary(Digit::ht_not, "+--");
    check_unary(Digit::post, "0+-");
    check_unary(Digit::pre, "+-0");
    check_unary(Digit::neg, "+0-");
    check_unary(Digit::not, "+0-");
    check_unary(Digit::absolute_positive, "+0+");
    check_unary(Digit::positive, "00+");
    check_unary(Digit::not_negative, "0++");
    check_unary(Digit::not_positive, "--0");
    check_unary(Digit::negative, "-00");
    check_unary(Digit::absolute_negative, "-0-");
}

#[test]
fn implication_and_equivalence_tables_are_exact() {
    check_binary(Digit::k3_imply, "+++00+-0+");
    check_binary(Digit::k3_equiv, "+0-000-0+");
    check_binary(Digit::bi3_and, "-0-000-0+");
    check_binary(Digit::bi3_or, "-0+000+0+");
    check_binary(Digit::bi3_imply, "+0+000-0+");
    check_binary(Digit::l3_imply, "+++0++-0+");
    check_binary(Digit::rm3_imply, "+++-0+--+");
    check_binary(Digit::para_imply, "+++-0+-0+");
    check_binary(Digit::ht_imply, "+++-++-0+");
}

#[test]
fn connective_and_product_tables_are_exact() {
    check_binary(Digit::mul, "+0-000-0+");
    check_binary(Digit::bitand, "----00-0+");
    check_binary(Digit::bitor, "-0+00++++");
    check_binary(Digit::bitxor, "-0+000+0-");
}

#[test]
fn post_and_pre_undo_each_other() {
    for d in ALL {
        assert_eq!(d.post().pre(), d);
        assert_eq!(d.pre().post(), d);
        assert_eq!(d.neg().neg(), d);
    }
}

#[test]
fn sums_of_digits_follow_the_table() {
    let table = ["-+", "-", "0", "-", "0", "+", "0", "+", "+-"];
    for (i, a) in ALL.iter().enumerate() {
        for (j, b) in ALL.iter().enumerate() {
            let sum = a.add(*b);
            assert_eq!(sum.to_string(), table[3 * i + j]);
            assert_eq!(sum.to_dec(), Ok((a.to_i8() + b.to_i8()) as i64));
            assert_eq!(b.add(*a).to_string(), sum.to_string());
        }
    }
    assert_eq!(Digit::Pos.add(Digit::Pos).to_string(), "+-");
}

#[test]
fn differences_of_digits_follow_the_table() {
    let table = ["0", "-", "-+", "+", "0", "-", "+-", "+", "0"];
    for (i, a) in ALL.iter().enumerate() {
        for (j, b) in ALL.iter().enumerate() {
            let difference = a.sub(*b);
            assert_eq!(difference.to_string(), table[3 * i + j]);
            assert_eq!(difference.to_dec(), Ok((a.to_i8() - b.to_i8()) as i64));
            assert_eq!(a.add(b.neg()).to_string(), difference.to_string());
        }
    }
}

#[test]
fn increment_and_decrement_run_over_at_the_ends() {
    assert_eq!(Digit::Neg.inc().to_string(), "0");
    assert_eq!(Digit::Zero.inc().to_string(), "+");
    assert_eq!(Digit::Pos.inc().to_string(), "+-");
    assert_eq!(Digit::Neg.dec().to_string(), "-+");
    assert_eq!(Digit::Zero.dec().to_string(), "-");
    assert_eq!(Digit::Pos.dec().to_string(), "0");
    for d in ALL {
        assert_eq!(d.inc().to_dec(), Ok(d.to_i8() as i64 + 1));
        assert_eq!(d.dec().to_dec(), Ok(d.to_i8() as i64 - 1));
    }
}

#[test]
fn product_is_commutative_and_zero_absorbs() {
    for a in ALL {
        assert_eq!(a.mul(Digit::Zero), Digit::Zero);
        assert_eq!(Digit::Zero.mul(a), Digit::Zero);
        for b in ALL {
            assert_eq!(a.mul(b), b.mul(a));
            assert_eq!(a.mul(b).to_i8(), a.to_i8() * b.to_i8());
        }
    }
}

#[test]
fn division_by_zero_fails_and_else_is_the_product() {
    for a in ALL {
        assert_eq!(a.div(Digit::Zero), Err(TernaryError::DivideByZero));
        assert_eq!(a.div(Digit::Pos), Ok(a));
        assert_eq!(a.div(Digit::Neg), Ok(a.neg()));
    }
    assert_eq!(Digit::Neg.div(Digit::Zero), Err(TernaryError::DivideByZero));
    assert_eq!(Digit::Neg.div(Digit::Neg), Ok(Digit::Pos));
}

#[test]
fn only_decided_digits_have_a_truth_value() {
    assert_eq!(Digit::Pos.ht_bool(), Some(true));
    assert_eq!(Digit::Neg.ht_bool(), Some(false));
    assert_eq!(Digit::Zero.ht_bool(), None);
    for d in ALL {
        assert!(d.possibly().ht_bool().is_some());
        assert!(d.necessary().ht_bool().is_some());
        assert!(d.contingently().ht_bool().is_some());
        assert!(d.ht_not().ht_bool().is_some());
    }
}
