use xee::{cast_untyped_arithmetic, double_lexical, unary_minus, unary_plus, DoubleLexical};
use xee::{Atomic, Decimal, Error, Integer, IntegerType};

fn double(v: f64) -> Atomic {
    Atomic::Double(v.to_bits())
}

fn untyped(s: &str) -> Atomic {
    Atomic::Untyped(s.to_string())
}

#[test]
fn test_unary_minus_untyped_atomic() {
    // -(xs:untypedAtomic("3")) is the double -3
    let r = unary_minus(untyped("3"), 3.0f64.to_bits());
    assert_eq!(r, Ok(double(-3.0)));
}

#[test]
fn test_unary_plus_untyped_atomic() {
    // +(xs:untypedAtomic("3.5")) is the double 3.5
    let r = unary_plus(untyped("3.5"), 3.5f64.to_bits());
    assert_eq!(r, Ok(double(3.5)));
}

#[test]
fn test_unary_minus_untyped_atomic_invalid() {
    // -(xs:untypedAtomic("abc")) cannot be cast: FORG0001
    assert_eq!(unary_minus(untyped("abc"), 0), Err(Error::FORG0001));
    assert_eq!(unary_plus(untyped("abc"), 0), Err(Error::FORG0001));
}

#[test]
fn test_unary_minus_string_is_still_a_type_error() {
    // -("a") is a type error, not a cast
    assert_eq!(unary_minus(Atomic::String("a".to_string()), 0), Err(Error::XPTY0004));
}

#[test]
fn test_unary_minus_untyped_atomic_with_whitespace() {
    // -(xs:untypedAtomic("  3  ")) is the double -3: the cast collapses
    // the surrounding whitespace
    assert_eq!(
        double_lexical("  3  "),
        Some(DoubleLexical::Finite("3".to_string()))
    );
    let r = unary_minus(untyped("  3  "), 3.0f64.to_bits());
    assert_eq!(r, Ok(double(-3.0)));
}

#[test]
fn other_values_are_a_type_error() {
    assert_eq!(unary_minus(Atomic::Boolean(true), 0), Err(Error::XPTY0004));
    assert_eq!(
        unary_plus(Atomic::AnyUri("http://example.com".to_string()), 0),
        Err(Error::XPTY0004)
    );
    assert_eq!(unary_plus(Atomic::String("1".to_string()), 1.0f64.to_bits()), Err(Error::XPTY0004));
}

#[test]
fn untyped_special_values_are_cast_without_the_supplied_double() {
    let any = 5.0f64.to_bits();
    assert_eq!(unary_plus(untyped("INF"), any), Ok(double(f64::INFINITY)));
    assert_eq!(unary_plus(untyped("+INF"), any), Ok(double(f64::INFINITY)));
    assert_eq!(unary_minus(untyped("INF"), any), Ok(double(f64::NEG_INFINITY)));
    assert_eq!(unary_minus(untyped(" -INF\n"), any), Ok(double(f64::INFINITY)));
    match unary_plus(untyped("NaN"), any) {
        Ok(Atomic::Double(bits)) => assert!(f64::from_bits(bits).is_nan()),
        other => panic!("unexpected {:?}", other),
    }
    assert_eq!(unary_minus(untyped("inf"), any), Err(Error::FORG0001));
    assert_eq!(unary_minus(untyped("nan"), any), Err(Error::FORG0001));
}

#[test]
fn double_lexical_forms() {
    assert_eq!(double_lexical("INF"), Some(DoubleLexical::PositiveInfinity));
    assert_eq!(double_lexical("+INF"), Some(DoubleLexical::PositiveInfinity));
    assert_eq!(double_lexical("\t-INF "), Some(DoubleLexical::NegativeInfinity));
    assert_eq!(double_lexical("NaN"), Some(DoubleLexical::NaN));
    for ok in ["3", "-3", "+0", "3.5", "3.", ".5", "1e5", "1E-5", "-1.5e+10", "007"] {
        assert_eq!(double_lexical(ok), Some(DoubleLexical::Finite(ok.to_string())), "{}", ok);
    }
    for bad in ["", "   ", "abc", ".", "+", "-", "e5", "1e", "1e+", "1.2.3", "3 4", "--3", "1_000", "0x10", "+NaN", "-NaN", "Infinity"] {
        assert_eq!(double_lexical(bad), None, "{}", bad);
    }
}

#[test]
fn surrounding_whitespace_is_ignored() {
    for w1 in ["", " ", "\t\n", "\r "] {
        for w2 in ["", "  ", "\n"] {
            for s in ["3", "-2.5e3", "INF", "NaN", "-INF", "abc", "1 2"] {
                let padded = format!("{}{}{}", w1, s, w2);
                assert_eq!(double_lexical(&padded), double_lexical(s));
                assert_eq!(
                    unary_minus(untyped(&padded), 7.0f64.to_bits()),
                    unary_minus(untyped(s), 7.0f64.to_bits())
                );
            }
        }
    }
}

#[test]
fn untyped_finite_operand_takes_the_supplied_double() {
    // the library reads only the lexical form; the double it denotes is
    // handed in, so a different double shows through
    assert_eq!(unary_plus(untyped("2"), 9.0f64.to_bits()), Ok(double(9.0)));
}

#[test]
fn cast_untyped_passes_other_values_through() {
    let i = Atomic::Integer(IntegerType::Int, Integer::from_i64(7));
    assert_eq!(cast_untyped_arithmetic(i.clone(), 0), Ok(i));
    assert_eq!(cast_untyped_arithmetic(untyped("1"), 1.0f64.to_bits()), Ok(double(1.0)));
    assert_eq!(cast_untyped_arithmetic(untyped("x"), 0), Err(Error::FORG0001));
}

#[test]
fn unary_minus_integer_becomes_xs_integer() {
    let i = Atomic::Integer(IntegerType::Int, Integer::from_i64(5));
    assert_eq!(
        unary_minus(i, 0),
        Ok(Atomic::Integer(IntegerType::Integer, Integer::from_i64(-5)))
    );
    let z = Atomic::Integer(IntegerType::Integer, Integer::from_i64(0));
    assert_eq!(unary_minus(z.clone(), 0), Ok(z));
}

#[test]
fn unary_plus_keeps_integer_subtype() {
    let i = Atomic::Integer(IntegerType::PositiveInteger, Integer::from_i64(12));
    assert_eq!(unary_plus(i.clone(), 0), Ok(i));
}

#[test]
fn unary_minus_i64_min_does_not_overflow() {
    let i = Atomic::Integer(IntegerType::Long, Integer::from_i64(i64::MIN));
    let r = unary_minus(i, 0).unwrap();
    match r {
        Atomic::Integer(t, v) => {
            assert_eq!(t, IntegerType::Integer);
            assert!(!v.is_negative());
            assert_eq!(v.magnitude(), &vec![0u32, 0x8000_0000u32]);
        }
        _ => panic!("not an integer"),
    }
}

#[test]
fn unary_minus_big_integer() {
    let big = Integer::from_limbs(false, vec![1, 2, 3, 0, 0]);
    assert_eq!(big.magnitude(), &vec![1u32, 2, 3]);
    let r = unary_minus(Atomic::Integer(IntegerType::Integer, big), 0).unwrap();
    assert_eq!(
        r,
        Atomic::Integer(IntegerType::Integer, Integer::from_limbs(true, vec![1, 2, 3]))
    );
}

#[test]
fn integer_zero_is_never_negative() {
    let z = Integer::from_limbs(true, vec![0, 0]);
    assert!(!z.is_negative());
    assert_eq!(z, Integer::from_i64(0));
}

#[test]
fn unary_minus_decimal() {
    let d = Decimal::new(125, 1).unwrap();
    let r = unary_minus(Atomic::Decimal(d), 0).unwrap();
    match r {
        Atomic::Decimal(n) => {
            assert_eq!(n.mantissa(), -125);
            assert_eq!(n.scale(), 1);
        }
        _ => panic!("not a decimal"),
    }
}

#[test]
fn decimal_new_bounds() {
    assert!(Decimal::new(79228162514264337593543950335, 28).is_some());
    assert!(Decimal::new(-79228162514264337593543950335, 0).is_some());
    assert!(Decimal::new(79228162514264337593543950336, 0).is_none());
    assert!(Decimal::new(1, 29).is_none());
}

#[test]
fn unary_minus_float_and_double() {
    let f = Atomic::Float(1.5f32.to_bits());
    assert_eq!(unary_minus(f, 0), Ok(Atomic::Float((-1.5f32).to_bits())));
    assert_eq!(unary_minus(double(0.0), 0), Ok(double(-0.0)));
    let nan = f64::NAN.to_bits();
    assert_eq!(unary_minus(Atomic::Double(nan), 0), Ok(Atomic::Double((-f64::NAN).to_bits())));
    assert_eq!(
        unary_minus(double(f64::INFINITY), 0),
        Ok(double(f64::NEG_INFINITY))
    );
}

#[test]
fn unary_minus_twice_gives_back_the_value() {
    for a in [
        double(2.25),
        Atomic::Float(3.0f32.to_bits()),
        Atomic::Decimal(Decimal::new(-7, 2).unwrap()),
        Atomic::Integer(IntegerType::Integer, Integer::from_i64(-42)),
    ] {
        let once = unary_minus(a.clone(), 0).unwrap();
        let twice = unary_minus(once, 0).unwrap();
        assert_eq!(twice, a);
    }
    let short = Atomic::Integer(IntegerType::Short, Integer::from_i64(9));
    let twice = unary_minus(unary_minus(short, 0).unwrap(), 0).unwrap();
    assert_eq!(twice, Atomic::Integer(IntegerType::Integer, Integer::from_i64(9)));
}

#[test]
fn unary_plus_then_minus_is_minus() {
    let a = untyped("4");
    let bits = 4.0f64.to_bits();
    let p = unary_plus(a.clone(), bits).unwrap();
    assert_eq!(unary_minus(p, 0), unary_minus(a, bits));
}

#[test]
fn negated_zero_decimal_is_negative_signed() {
    let zero = Decimal::new(0, 1).unwrap();
    assert!(!zero.is_sign_negative());
    let r = unary_minus(Atomic::Decimal(zero), 0).unwrap();
    match r.clone() {
        Atomic::Decimal(n) => {
            assert_eq!(n.mantissa(), 0);
            assert_eq!(n.scale(), 1);
            assert!(n.is_sign_negative());
        }
        _ => panic!("not a decimal"),
    }
    assert_eq!(unary_minus(r, 0), Ok(Atomic::Decimal(zero)));
    let neg_zero = Decimal::from_parts(true, 0, 0).unwrap();
    assert!(neg_zero.is_sign_negative());
    assert_eq!(neg_zero.neg(), Decimal::new(0, 0).unwrap());
}
