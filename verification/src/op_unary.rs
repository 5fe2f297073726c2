use vstd::prelude::*;

use crate::atomic::{Atomic, AtomicValue, Error, IntegerType, is_numeric};
use crate::lexical::{
    DoubleLexical, NAN_BITS, NEGATIVE_INFINITY_BITS, POSITIVE_INFINITY_BITS, all_xml_space,
    double_lexical, trim_xml_space, law_pattern_reads_as_finite_number, law_surrounding_whitespace_is_ignored,
    lexical_bits, matches_double_pattern, spec_double_lexical,
};

verus! {

/// The sign bit of an `xs:float`.
pub const FLOAT_SIGN: u32 = 0x8000_0000u32;

/// The sign bit of an `xs:double`.
pub const DOUBLE_SIGN: u64 = 0x8000_0000_0000_0000u64;

/// The negation of an IEEE 754 single: its sign bit flips, NaN included.
pub open spec fn float_neg(bits: u32) -> u32 {
    bits ^ FLOAT_SIGN
}

/// The negation of an IEEE 754 double: its sign bit flips, NaN included.
pub open spec fn double_neg(bits: u64) -> u64 {
    bits ^ DOUBLE_SIGN
}

/// Rule 4 of XPath 3.1 section 3.5: an `xs:untypedAtomic` operand of an
/// arithmetic operator is cast to `xs:double`; other values pass unchanged.
/// A string outside the lexical space of `xs:double` is an FORG0001 error;
/// `INF`, `-INF` and `NaN` give those doubles; `finite_double` holds the bits
/// of the double that a finite lexical form denotes.
pub open spec fn spec_cast_untyped_arithmetic(a: AtomicValue, finite_double: u64) -> Result<
    AtomicValue,
    Error,
> {
    match a {
        AtomicValue::Untyped(s) => match spec_double_lexical(s) {
            Some(l) => Ok(AtomicValue::Double(lexical_bits(l, finite_double))),
            None => Err(Error::FORG0001),
        },
        _ => Ok(a),
    }
}

/// The unary `+` of XPath: the numeric operand unchanged.
pub open spec fn spec_unary_plus(a: AtomicValue, finite_double: u64) -> Result<
    AtomicValue,
    Error,
> {
    match spec_cast_untyped_arithmetic(a, finite_double) {
        Err(e) => Err(e),
        Ok(c) => if is_numeric(c) {
            Ok(c)
        } else {
            Err(Error::XPTY0004)
        },
    }
}

/// The unary `-` of XPath: the negated operand; an integer of any subtype of
/// `xs:integer` gives an `xs:integer`.
pub open spec fn spec_unary_minus(a: AtomicValue, finite_double: u64) -> Result<
    AtomicValue,
    Error,
> {
    match spec_cast_untyped_arithmetic(a, finite_double) {
        Err(e) => Err(e),
        Ok(c) => match c {
            AtomicValue::Integer(_, i) => Ok(AtomicValue::Integer(IntegerType::Integer, -i)),
            AtomicValue::Decimal(m, s, n) => Ok(AtomicValue::Decimal(-m, s, !n)),
            AtomicValue::Float(bits) => Ok(AtomicValue::Float(float_neg(bits))),
            AtomicValue::Double(bits) => Ok(AtomicValue::Double(double_neg(bits))),
            _ => Err(Error::XPTY0004),
        },
    }
}

/// The view of a result.
pub open spec fn result_view(r: Result<Atomic, Error>) -> Result<AtomicValue, Error> {
    match r {
        Ok(a) => Ok(a@),
        Err(e) => Err(e),
    }
}

/// Casts an `xs:untypedAtomic` operand of an arithmetic operator to
/// `xs:double` (rule 4 of XPath 3.1 section 3.5): its string, less the
/// surrounding whitespace, must be in the lexical space of `xs:double`.
/// `finite_double` holds the bits of the double that the string denotes
/// where it is a finite number; it is read for nothing else.
pub fn cast_untyped_arithmetic(atomic: Atomic, finite_double: u64) -> (r: Result<
    Atomic,
    Error,
>)
    ensures
        result_view(r) == spec_cast_untyped_arithmetic(atomic@, finite_double),
{
    match atomic {
        Atomic::Untyped(s) => match double_lexical(s.as_str()) {
            Some(DoubleLexical::PositiveInfinity) => Ok(Atomic::Double(POSITIVE_INFINITY_BITS)),
            Some(DoubleLexical::NegativeInfinity) => Ok(Atomic::Double(NEGATIVE_INFINITY_BITS)),
            Some(DoubleLexical::NaN) => Ok(Atomic::Double(NAN_BITS)),
            Some(DoubleLexical::Finite(_)) => Ok(Atomic::Double(finite_double)),
            None => Err(Error::FORG0001),
        },
        _ => Ok(atomic),
    }
}

/// The unary `+` operator: after the untyped cast, a numeric operand is
/// returned unchanged; any other operand is a type error.
pub fn unary_plus(atomic: Atomic, finite_double: u64) -> (r: Result<Atomic, Error>)
    ensures
        result_view(r) == spec_unary_plus(atomic@, finite_double),
{
    let atomic = cast_untyped_arithmetic(atomic, finite_double)?;
    match atomic {
        Atomic::Integer(_, _) | Atomic::Decimal(_) | Atomic::Float(_) | Atomic::Double(_) => Ok(
            atomic,
        ),
        _ => Err(Error::XPTY0004),
    }
}

/// The unary `-` operator: after the untyped cast, a numeric operand is
/// negated (an integer of any subtype becomes an `xs:integer`); any other
/// operand is a type error.
pub fn unary_minus(atomic: Atomic, finite_double: u64) -> (r: Result<Atomic, Error>)
    ensures
        result_view(r) == spec_unary_minus(atomic@, finite_double),
{
    let atomic = cast_untyped_arithmetic(atomic, finite_double)?;
    match atomic {
        Atomic::Integer(_, i) => Ok(Atomic::Integer(IntegerType::Integer, i.neg())),
        Atomic::Decimal(d) => Ok(Atomic::Decimal(d.neg())),
        Atomic::Float(bits) => Ok(Atomic::Float(bits ^ FLOAT_SIGN)),
        Atomic::Double(bits) => Ok(Atomic::Double(bits ^ DOUBLE_SIGN)),
        _ => Err(Error::XPTY0004),
    }
}

/// The value with an integer of any subtype of `xs:integer` retyped as
/// `xs:integer`; other values unchanged.
pub open spec fn as_xs_integer(a: AtomicValue) -> AtomicValue {
    match a {
        AtomicValue::Integer(_, i) => AtomicValue::Integer(IntegerType::Integer, i),
        _ => a,
    }
}

/// Unary `+` gives back every numeric operand unchanged.
pub proof fn law_unary_plus_identity(a: AtomicValue, finite_double: u64)
    requires
        is_numeric(a),
    ensures
        spec_unary_plus(a, finite_double) == Ok::<AtomicValue, Error>(a),
{
}

/// Negating a numeric operand twice gives back its value (an integer comes
/// back as an `xs:integer`).
pub proof fn law_unary_minus_involution(
    a: AtomicValue,
    finite_double: u64,
    finite_double2: u64,
)
    requires
        is_numeric(a),
    ensures
        spec_unary_minus(a, finite_double) matches Ok(b) && spec_unary_minus(b, finite_double2)
            == Ok::<AtomicValue, Error>(as_xs_integer(a)),
{
    match a {
        AtomicValue::Float(bits) => {
            assert((bits ^ FLOAT_SIGN) ^ FLOAT_SIGN == bits) by (bit_vector);
        },
        AtomicValue::Double(bits) => {
            assert((bits ^ DOUBLE_SIGN) ^ DOUBLE_SIGN == bits) by (bit_vector);
        },
        _ => {},
    }
}

/// Unary `+` and unary `-` accept the same operands, and reject the others
/// with the same error.
pub proof fn law_unary_operators_reject_alike(a: AtomicValue, finite_double: u64)
    ensures
        spec_unary_plus(a, finite_double) is Err <==> spec_unary_minus(a, finite_double) is Err,
        spec_unary_plus(a, finite_double) matches Err(e) ==> spec_unary_minus(a, finite_double)
            == Err::<AtomicValue, Error>(e),
{
}

/// Unary `-` applied to the result of unary `+` is unary `-` of the operand.
pub proof fn law_unary_minus_after_plus(
    a: AtomicValue,
    finite_double: u64,
    finite_double2: u64,
)
    ensures
        spec_unary_plus(a, finite_double) matches Ok(p) ==> spec_unary_minus(p, finite_double2)
            == spec_unary_minus(a, finite_double),
{
}

/// An `xs:untypedAtomic` operand behaves as the `xs:double` it casts to, and
/// one whose string is not an `xs:double` is an FORG0001 error, under both
/// operators.
pub proof fn law_untyped_operand_is_a_double(s: Seq<char>, finite_double: u64)
    ensures
        match spec_double_lexical(s) {
            Some(l) => {
                &&& spec_unary_plus(AtomicValue::Untyped(s), finite_double) == spec_unary_plus(
                    AtomicValue::Double(lexical_bits(l, finite_double)),
                    finite_double,
                )
                &&& spec_unary_minus(AtomicValue::Untyped(s), finite_double) == spec_unary_minus(
                    AtomicValue::Double(lexical_bits(l, finite_double)),
                    finite_double,
                )
            },
            None => {
                &&& spec_unary_plus(AtomicValue::Untyped(s), finite_double) == Err::<
                    AtomicValue,
                    Error,
                >(Error::FORG0001)
                &&& spec_unary_minus(AtomicValue::Untyped(s), finite_double) == Err::<
                    AtomicValue,
                    Error,
                >(Error::FORG0001)
            },
        },
{
}

/// XML whitespace around the string of an `xs:untypedAtomic` operand does
/// not change what either operator gives.
pub proof fn law_surrounding_whitespace_does_not_change_unary_operators(
    w1: Seq<char>,
    s: Seq<char>,
    w2: Seq<char>,
    finite_double: u64,
)
    requires
        all_xml_space(w1),
        all_xml_space(w2),
    ensures
        spec_unary_plus(AtomicValue::Untyped(w1 + s + w2), finite_double) == spec_unary_plus(
            AtomicValue::Untyped(s),
            finite_double,
        ),
        spec_unary_minus(AtomicValue::Untyped(w1 + s + w2), finite_double) == spec_unary_minus(
            AtomicValue::Untyped(s),
            finite_double,
        ),
{
    law_surrounding_whitespace_is_ignored(w1, s, w2);
}

/// Unary `-` of a double flips its sign bit and nothing else, for every bit
/// pattern (zeros, infinities and NaNs included); likewise for a float.
pub proof fn law_unary_minus_flips_only_the_sign_bit(
    double_bits: u64,
    float_bits: u32,
    finite_double: u64,
)
    ensures
        spec_unary_minus(AtomicValue::Double(double_bits), finite_double) == Ok::<
            AtomicValue,
            Error,
        >(AtomicValue::Double(double_bits ^ 0x8000_0000_0000_0000u64)),
        spec_unary_minus(AtomicValue::Float(float_bits), finite_double) == Ok::<
            AtomicValue,
            Error,
        >(AtomicValue::Float(float_bits ^ 0x8000_0000u32)),
        (double_bits ^ 0x8000_0000_0000_0000u64) & 0x7FFF_FFFF_FFFF_FFFFu64 == double_bits
            & 0x7FFF_FFFF_FFFF_FFFFu64,
        (double_bits ^ 0x8000_0000_0000_0000u64) >> 63u64 != double_bits >> 63u64,
        (float_bits ^ 0x8000_0000u32) & 0x7FFF_FFFFu32 == float_bits & 0x7FFF_FFFFu32,
        (float_bits ^ 0x8000_0000u32) >> 31u32 != float_bits >> 31u32,
{
    assert((double_bits ^ 0x8000_0000_0000_0000u64) & 0x7FFF_FFFF_FFFF_FFFFu64 == double_bits
        & 0x7FFF_FFFF_FFFF_FFFFu64) by (bit_vector);
    assert((double_bits ^ 0x8000_0000_0000_0000u64) >> 63u64 != double_bits >> 63u64)
        by (bit_vector);
    assert((float_bits ^ 0x8000_0000u32) & 0x7FFF_FFFFu32 == float_bits & 0x7FFF_FFFFu32)
        by (bit_vector);
    assert((float_bits ^ 0x8000_0000u32) >> 31u32 != float_bits >> 31u32) by (bit_vector);
}

/// Unary `-` of an integer of any subtype is the `xs:integer` of the opposite
/// value; of a decimal, the decimal of the opposite mantissa, with the same
/// scale and the sign flag flipped (so that a negated zero is negative-signed).
pub proof fn law_unary_minus_negates_integers_and_decimals(
    t: IntegerType,
    i: int,
    mantissa: int,
    scale: nat,
    negative: bool,
    finite_double: u64,
)
    ensures
        spec_unary_minus(AtomicValue::Integer(t, i), finite_double) == Ok::<AtomicValue, Error>(
            AtomicValue::Integer(IntegerType::Integer, -i),
        ),
        spec_unary_minus(AtomicValue::Decimal(mantissa, scale, negative), finite_double) == Ok::<
            AtomicValue,
            Error,
        >(AtomicValue::Decimal(-mantissa, scale, !negative)),
{
}

/// An `xs:untypedAtomic` operand whose string, less surrounding XML
/// whitespace, matches the pattern of a finite number (any number of digits
/// before and after the point) is the double that the number denotes, and
/// unary `-` gives that double with its sign bit flipped.
pub proof fn law_untyped_finite_number_operand(
    w1: Seq<char>,
    t: Seq<char>,
    w2: Seq<char>,
    finite_double: u64,
)
    requires
        all_xml_space(w1),
        all_xml_space(w2),
        matches_double_pattern(t),
    ensures
        spec_unary_plus(AtomicValue::Untyped(w1 + t + w2), finite_double) == Ok::<
            AtomicValue,
            Error,
        >(AtomicValue::Double(finite_double)),
        spec_unary_minus(AtomicValue::Untyped(w1 + t + w2), finite_double) == Ok::<
            AtomicValue,
            Error,
        >(AtomicValue::Double(finite_double ^ 0x8000_0000_0000_0000u64)),
{
    law_pattern_reads_as_finite_number(w1, t, w2);
}

/// `INF` and `+INF` give positive infinity, `-INF` negative infinity and
/// `NaN` a NaN, whatever XML whitespace surrounds them and whatever double
/// is supplied for finite numbers.
pub proof fn law_untyped_special_values(w1: Seq<char>, w2: Seq<char>, finite_double: u64)
    requires
        all_xml_space(w1),
        all_xml_space(w2),
    ensures
        spec_unary_plus(AtomicValue::Untyped(w1 + seq!['I', 'N', 'F'] + w2), finite_double) == Ok::<
            AtomicValue,
            Error,
        >(AtomicValue::Double(0x7FF0_0000_0000_0000u64)),
        spec_unary_plus(AtomicValue::Untyped(w1 + seq!['+', 'I', 'N', 'F'] + w2), finite_double)
            == Ok::<AtomicValue, Error>(AtomicValue::Double(0x7FF0_0000_0000_0000u64)),
        spec_unary_plus(AtomicValue::Untyped(w1 + seq!['-', 'I', 'N', 'F'] + w2), finite_double)
            == Ok::<AtomicValue, Error>(AtomicValue::Double(0xFFF0_0000_0000_0000u64)),
        spec_unary_minus(AtomicValue::Untyped(w1 + seq!['I', 'N', 'F'] + w2), finite_double)
            == Ok::<AtomicValue, Error>(AtomicValue::Double(0xFFF0_0000_0000_0000u64)),
        spec_unary_plus(AtomicValue::Untyped(w1 + seq!['N', 'a', 'N'] + w2), finite_double) == Ok::<
            AtomicValue,
            Error,
        >(AtomicValue::Double(0x7FF8_0000_0000_0000u64)),
{
    let inf = seq!['I', 'N', 'F'];
    let plus_inf = seq!['+', 'I', 'N', 'F'];
    let minus_inf = seq!['-', 'I', 'N', 'F'];
    let nan = seq!['N', 'a', 'N'];
    law_surrounding_whitespace_is_ignored(w1, inf, w2);
    law_surrounding_whitespace_is_ignored(w1, plus_inf, w2);
    law_surrounding_whitespace_is_ignored(w1, minus_inf, w2);
    law_surrounding_whitespace_is_ignored(w1, nan, w2);
    assert(trim_xml_space(inf) == inf);
    assert(trim_xml_space(plus_inf) == plus_inf);
    assert(trim_xml_space(minus_inf) == minus_inf);
    assert(trim_xml_space(nan) == nan);
    assert(plus_inf != inf);
    assert(minus_inf != inf && minus_inf != plus_inf);
    assert(nan != inf && nan != plus_inf && nan != minus_inf);
    assert(0x7FF0_0000_0000_0000u64 ^ 0x8000_0000_0000_0000u64 == 0xFFF0_0000_0000_0000u64)
        by (bit_vector);
}

/// Unary `+` gives back an integer, decimal, float or double operand as it
/// is; a string, `xs:anyURI` or boolean operand is a type error under both
/// operators.
pub proof fn law_unary_operand_kinds(
    t: IntegerType,
    i: int,
    mantissa: int,
    scale: nat,
    negative: bool,
    float_bits: u32,
    double_bits: u64,
    text: Seq<char>,
    b: bool,
    finite_double: u64,
)
    ensures
        spec_unary_plus(AtomicValue::Integer(t, i), finite_double) == Ok::<AtomicValue, Error>(
            AtomicValue::Integer(t, i),
        ),
        spec_unary_plus(AtomicValue::Decimal(mantissa, scale, negative), finite_double) == Ok::<
            AtomicValue,
            Error,
        >(AtomicValue::Decimal(mantissa, scale, negative)),
        spec_unary_plus(AtomicValue::Float(float_bits), finite_double) == Ok::<AtomicValue, Error>(
            AtomicValue::Float(float_bits),
        ),
        spec_unary_plus(AtomicValue::Double(double_bits), finite_double) == Ok::<
            AtomicValue,
            Error,
        >(AtomicValue::Double(double_bits)),
        spec_unary_plus(AtomicValue::String(text), finite_double) == Err::<AtomicValue, Error>(
            Error::XPTY0004,
        ),
        spec_unary_minus(AtomicValue::String(text), finite_double) == Err::<AtomicValue, Error>(
            Error::XPTY0004,
        ),
        spec_unary_plus(AtomicValue::AnyUri(text), finite_double) == Err::<AtomicValue, Error>(
            Error::XPTY0004,
        ),
        spec_unary_minus(AtomicValue::AnyUri(text), finite_double) == Err::<AtomicValue, Error>(
            Error::XPTY0004,
        ),
        spec_unary_plus(AtomicValue::Boolean(b), finite_double) == Err::<AtomicValue, Error>(
            Error::XPTY0004,
        ),
        spec_unary_minus(AtomicValue::Boolean(b), finite_double) == Err::<AtomicValue, Error>(
            Error::XPTY0004,
        ),
{
}

} // verus!
