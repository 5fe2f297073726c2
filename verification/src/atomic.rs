use vstd::prelude::*;

use crate::decimal::Decimal;
use crate::integer::Integer;

verus! {

/// The built-in subtypes of `xs:integer`.
#[derive(Debug, Clone, Copy, PartialEq, Eq, Structural)]
pub enum IntegerType {
    Integer,
    NonPositiveInteger,
    NegativeInteger,
    NonNegativeInteger,
    PositiveInteger,
    Long,
    Int,
    Short,
    Byte,
    UnsignedLong,
    UnsignedInt,
    UnsignedShort,
    UnsignedByte,
}

/// Errors raised by the operators, named by their XPath error codes.
#[derive(Debug, Clone, Copy, PartialEq, Eq, Structural)]
pub enum Error {
    /// A value is not in the lexical space of the type it is cast to.
    FORG0001,
    /// An operand has a type that the operator does not accept.
    XPTY0004,
}

/// An atomic value. `xs:float` and `xs:double` values are held as the bit
/// patterns of their IEEE 754 representation.
#[derive(Debug, Clone, PartialEq, Eq)]
pub enum Atomic {
    Untyped(String),
    String(String),
    AnyUri(String),
    Boolean(bool),
    Decimal(Decimal),
    Integer(IntegerType, Integer),
    Float(u32),
    Double(u64),
}

/// The mathematical model of an atomic value.
pub enum AtomicValue {
    Untyped(Seq<char>),
    String(Seq<char>),
    AnyUri(Seq<char>),
    Boolean(bool),
    /// A decimal as its mantissa, its scale and its sign flag (which a
    /// negative zero carries too).
    Decimal(int, nat, bool),
    Integer(IntegerType, int),
    Float(u32),
    Double(u64),
}

impl View for Atomic {
    type V = AtomicValue;

    open spec fn view(&self) -> AtomicValue {
        match self {
            Atomic::Untyped(s) => AtomicValue::Untyped(s@),
            Atomic::String(s) => AtomicValue::String(s@),
            Atomic::AnyUri(s) => AtomicValue::AnyUri(s@),
            Atomic::Boolean(b) => AtomicValue::Boolean(*b),
            Atomic::Decimal(d) => AtomicValue::Decimal(
                d.spec_mantissa(),
                d.spec_scale(),
                d.spec_negative(),
            ),
            Atomic::Integer(t, i) => AtomicValue::Integer(*t, i.value()),
            Atomic::Float(b) => AtomicValue::Float(*b),
            Atomic::Double(b) => AtomicValue::Double(*b),
        }
    }
}

/// Whether the value is of one of the numeric types: `xs:integer` (and its
/// subtypes), `xs:decimal`, `xs:float` or `xs:double`.
pub open spec fn is_numeric(a: AtomicValue) -> bool {
    match a {
        AtomicValue::Decimal(_, _, _) | AtomicValue::Integer(_, _) | AtomicValue::Float(_)
        | AtomicValue::Double(_) => true,
        _ => false,
    }
}

} // verus!
