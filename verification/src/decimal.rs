use vstd::prelude::*;

verus! {

/// Largest magnitude of a decimal's mantissa: 2^96 - 1.
pub const MAX_MANTISSA: i128 = 79228162514264337593543950335i128;

/// Largest magnitude of a decimal's mantissa, unsigned.
pub const MAX_MAGNITUDE: u128 = 79228162514264337593543950335u128;

/// Largest number of digits after the decimal point.
pub const MAX_SCALE: u32 = 28u32;

/// An `xs:decimal` value as `rust_decimal` represents it: a sign flag, a
/// magnitude of at most 96 bits and a scale of at most 28, denoting
/// `±magnitude / 10^scale`. The sign flag is kept for zero too, so that a
/// negated zero is a negative zero.
#[derive(Debug, Clone, Copy, PartialEq, Eq, Structural)]
pub struct Decimal {
    negative: bool,
    magnitude: u128,
    scale: u32,
}

impl Decimal {
    /// The magnitude fits in 96 bits and the scale is at most 28.
    #[verifier::type_invariant]
    closed spec fn inv(self) -> bool {
        &&& self.magnitude <= MAX_MAGNITUDE
        &&& self.scale <= MAX_SCALE
    }

    /// The mantissa, as a mathematical integer: the magnitude with the sign.
    pub closed spec fn spec_mantissa(self) -> int {
        if self.negative {
            -(self.magnitude as int)
        } else {
            self.magnitude as int
        }
    }

    /// Whether the sign flag is set (a negative zero has it too).
    pub closed spec fn spec_negative(self) -> bool {
        self.negative
    }

    /// The number of digits after the decimal point.
    pub closed spec fn spec_scale(self) -> nat {
        self.scale as nat
    }

    /// The decimal of the given mantissa and scale, negative exactly where the
    /// mantissa is below zero.
    pub closed spec fn spec_new(mantissa: int, scale: nat) -> Decimal {
        Decimal {
            negative: mantissa < 0,
            magnitude: (if mantissa < 0 {
                -mantissa
            } else {
                mantissa
            }) as u128,
            scale: scale as u32,
        }
    }

    /// The decimal `mantissa / 10^scale`, negative exactly where the mantissa
    /// is; `None` where the mantissa needs more than 96 bits or the scale
    /// exceeds 28.
    pub fn new(mantissa: i128, scale: u32) -> (r: Option<Decimal>)
        ensures
            r is Some <==> (-MAX_MANTISSA <= mantissa <= MAX_MANTISSA && scale <= MAX_SCALE),
            r matches Some(d) ==> {
                &&& d.spec_mantissa() == mantissa
                &&& d.spec_scale() == scale
                &&& d.spec_negative() == (mantissa < 0)
                &&& d == Decimal::spec_new(mantissa as int, scale as nat)
            },
    {
        if -MAX_MANTISSA <= mantissa && mantissa <= MAX_MANTISSA && scale <= MAX_SCALE {
            let magnitude: u128 = if mantissa < 0 {
                (0 - mantissa) as u128
            } else {
                mantissa as u128
            };
            Some(Decimal { negative: mantissa < 0, magnitude, scale })
        } else {
            None
        }
    }

    /// The decimal `±magnitude / 10^scale` with the given sign flag (a zero
    /// magnitude may carry it); `None` where the magnitude needs more than 96
    /// bits or the scale exceeds 28.
    pub fn from_parts(negative: bool, magnitude: u128, scale: u32) -> (r: Option<Decimal>)
        ensures
            r is Some <==> (magnitude <= MAX_MAGNITUDE && scale <= MAX_SCALE),
            r matches Some(d) ==> {
                &&& d.spec_mantissa() == (if negative {
                    -(magnitude as int)
                } else {
                    magnitude as int
                })
                &&& d.spec_scale() == scale
                &&& d.spec_negative() == negative
            },
    {
        if magnitude <= MAX_MAGNITUDE && scale <= MAX_SCALE {
            Some(Decimal { negative, magnitude, scale })
        } else {
            None
        }
    }

    /// The mantissa.
    pub fn mantissa(&self) -> (r: i128)
        ensures
            r == self.spec_mantissa(),
            -MAX_MANTISSA <= r <= MAX_MANTISSA,
    {
        proof {
            use_type_invariant(self);
        }
        if self.negative {
            0 - (self.magnitude as i128)
        } else {
            self.magnitude as i128
        }
    }

    /// Whether the sign flag is set.
    pub fn is_sign_negative(&self) -> (r: bool)
        ensures
            r == self.spec_negative(),
    {
        self.negative
    }

    /// The scale.
    pub fn scale(&self) -> (r: u32)
        ensures
            r == self.spec_scale(),
            r <= MAX_SCALE,
    {
        proof {
            use_type_invariant(self);
        }
        self.scale
    }

    /// The negated decimal: the sign flag flips, zero included; the
    /// magnitude and the scale stay.
    pub fn neg(self) -> (r: Decimal)
        ensures
            r.spec_mantissa() == -self.spec_mantissa(),
            r.spec_negative() == !self.spec_negative(),
            r.spec_scale() == self.spec_scale(),
    {
        proof {
            use_type_invariant(&self);
        }
        Decimal { negative: !self.negative, magnitude: self.magnitude, scale: self.scale }
    }
}

} // verus!
