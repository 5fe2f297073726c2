use vstd::prelude::*;

verus! {

/// 2^32, the base of the limbs of an integer's magnitude.
pub open spec fn limb_base() -> int {
    0x1_0000_0000
}

/// The natural number that little-endian 32-bit limbs denote.
pub open spec fn limbs_value(limbs: Seq<u32>) -> nat
    decreases limbs.len(),
{
    if limbs.len() == 0 {
        0
    } else {
        (limbs[0] + limb_base() * limbs_value(limbs.drop_first())) as nat
    }
}

/// A zero limb on top of the magnitude adds nothing to its value.
proof fn lemma_value_drop_top_zero(limbs: Seq<u32>)
    requires
        limbs.len() > 0,
        limbs.last() == 0,
    ensures
        limbs_value(limbs) == limbs_value(limbs.drop_last()),
    decreases limbs.len(),
{
    if limbs.len() == 1 {
        assert(limbs_value(limbs.drop_first()) == 0);
        assert(limbs_value(limbs.drop_last()) == 0);
    } else {
        let tail = limbs.drop_first();
        assert(tail.last() == limbs.last());
        lemma_value_drop_top_zero(tail);
        assert(tail.drop_last() =~= limbs.drop_last().drop_first());
        assert(limbs.drop_last()[0] == limbs[0]);
    }
}

/// A magnitude whose top limb is non-zero is non-zero.
proof fn lemma_value_positive(limbs: Seq<u32>)
    requires
        limbs.len() > 0,
        limbs.last() != 0,
    ensures
        limbs_value(limbs) > 0,
    decreases limbs.len(),
{
    if limbs.len() > 1 {
        lemma_value_positive(limbs.drop_first());
        assert(limbs.drop_first().last() == limbs.last());
    }
}

/// An arbitrary-precision `xs:integer` value: a sign and a magnitude in
/// little-endian 32-bit limbs, with no zero limb on top, and zero never negative.
#[derive(Debug, PartialEq, Eq)]
pub struct Integer {
    negative: bool,
    magnitude: Vec<u32>,
}

impl Integer {
    /// The magnitude has no zero top limb, and zero is not negative.
    #[verifier::type_invariant]
    closed spec fn inv(self) -> bool {
        &&& self.magnitude.len() > 0 ==> self.magnitude@.last() != 0
        &&& self.magnitude.len() == 0 ==> !self.negative
    }

    /// The mathematical integer.
    pub closed spec fn value(self) -> int {
        if self.negative {
            -limbs_value(self.magnitude@)
        } else {
            limbs_value(self.magnitude@) as int
        }
    }

    /// The integer of the given sign and magnitude (little-endian 32-bit
    /// limbs); zero limbs on top are dropped, and a zero magnitude is never
    /// negative.
    pub fn from_limbs(negative: bool, magnitude: Vec<u32>) -> (r: Integer)
        ensures
            r.value() == (if negative {
                -limbs_value(magnitude@)
            } else {
                limbs_value(magnitude@) as int
            }),
    {
        let mut magnitude = magnitude;
        let ghost given = magnitude@;
        while magnitude.len() > 0 && magnitude[magnitude.len() - 1] == 0
            invariant
                limbs_value(magnitude@) == limbs_value(given),
            decreases magnitude.len(),
        {
            proof {
                lemma_value_drop_top_zero(magnitude@);
            }
            magnitude.pop();
        }
        let negative = negative && magnitude.len() > 0;
        proof {
            if magnitude.len() == 0 {
                assert(limbs_value(magnitude@) == 0);
            }
        }
        Integer { negative, magnitude }
    }

    /// The integer `v`.
    pub fn from_i64(v: i64) -> (r: Integer)
        ensures
            r.value() == v,
    {
        let m: u64 = if v < 0 {
            (0i128 - (v as i128)) as u64
        } else {
            v as u64
        };
        let low: u32 = (m % 0x1_0000_0000u64) as u32;
        let high: u32 = (m / 0x1_0000_0000u64) as u32;
        let mut limbs: Vec<u32> = Vec::new();
        limbs.push(low);
        limbs.push(high);
        proof {
            let top = limbs@.drop_first();
            assert(top[0] == high);
            assert(limbs_value(top.drop_first()) == 0);
            assert(limbs_value(top) == high);
            assert(m == low + limb_base() * high);
        }
        Integer::from_limbs(v < 0, limbs)
    }

    /// Whether the integer is below zero.
    pub fn is_negative(&self) -> (r: bool)
        ensures
            r == (self.value() < 0),
    {
        proof {
            use_type_invariant(self);
            if self.magnitude.len() > 0 {
                lemma_value_positive(self.magnitude@);
            }
        }
        self.negative
    }

    /// The magnitude, in little-endian 32-bit limbs with no zero limb on top.
    pub fn magnitude(&self) -> (r: &Vec<u32>)
        ensures
            limbs_value(r@) == (if self.value() < 0 {
                -self.value()
            } else {
                self.value()
            }),
            r.len() > 0 ==> r@.last() != 0,
    {
        proof {
            use_type_invariant(self);
            if self.magnitude.len() > 0 {
                lemma_value_positive(self.magnitude@);
            }
        }
        &self.magnitude
    }

    /// The negated integer.
    pub fn neg(self) -> (r: Integer)
        ensures
            r.value() == -self.value(),
    {
        proof {
            use_type_invariant(&self);
        }
        let negative = !self.negative && self.magnitude.len() > 0;
        proof {
            if self.magnitude.len() == 0 {
                assert(limbs_value(self.magnitude@) == 0);
            }
        }
        Integer { negative, magnitude: self.magnitude }
    }
}

impl Clone for Integer {
    fn clone(&self) -> (r: Integer)
        ensures
            r.value() == self.value(),
    {
        proof {
            use_type_invariant(self);
        }
        let magnitude = self.magnitude.clone();
        assert(magnitude@ =~= self.magnitude@);
        Integer { negative: self.negative, magnitude }
    }
}

} // verus!
