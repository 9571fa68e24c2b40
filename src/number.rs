use vstd::prelude::*;

verus! {

/// Sign bit of an IEEE-754 double.
pub const SIGN_MASK: u64 = 0x8000_0000_0000_0000;

/// Everything but the sign bit.
pub const MAGNITUDE_MASK: u64 = 0x7FFF_FFFF_FFFF_FFFF;

/// The eleven exponent bits.
pub const EXPONENT_MASK: u64 = 0x7FF0_0000_0000_0000;

/// The fifty-two fraction bits.
pub const FRACTION_MASK: u64 = 0x000F_FFFF_FFFF_FFFF;

/// A double-precision number, held as its IEEE-754 bit pattern.
///
/// Comparison, equality, negation and the zero test are decided on the bits;
/// the arithmetic itself is performed by the host.
#[derive(Debug, Clone, Copy, PartialEq, Eq, Structural)]
pub struct Number {
    pub bits: u64,
}

impl Number {
    pub open spec fn magnitude(self) -> u64 {
        self.bits & MAGNITUDE_MASK
    }

    pub open spec fn negative(self) -> bool {
        self.bits & SIGN_MASK != 0
    }

    pub open spec fn is_nan(self) -> bool {
        self.bits & EXPONENT_MASK == EXPONENT_MASK && self.bits & FRACTION_MASK != 0
    }

    /// Both zeros.
    pub open spec fn is_zero(self) -> bool {
        self.magnitude() == 0
    }

    /// For numbers that are not NaN, the order of doubles is the order of
    /// this integer: sign and magnitude, with the two zeros at 0.
    pub open spec fn ordinal(self) -> int {
        if self.negative() {
            -(self.magnitude() as int)
        } else {
            self.magnitude() as int
        }
    }

    /// IEEE-754 equality: NaN equals nothing, and the zeros are equal.
    pub open spec fn num_eq(self, other: Number) -> bool {
        !self.is_nan() && !other.is_nan() && self.ordinal() == other.ordinal()
    }

    pub open spec fn num_lt(self, other: Number) -> bool {
        !self.is_nan() && !other.is_nan() && self.ordinal() < other.ordinal()
    }

    pub open spec fn num_le(self, other: Number) -> bool {
        !self.is_nan() && !other.is_nan() && self.ordinal() <= other.ordinal()
    }

    pub fn from_bits(bits: u64) -> (r: Number)
        ensures
            r.bits == bits,
    {
        Number { bits }
    }

    pub fn to_bits(&self) -> (r: u64)
        ensures
            r == self.bits,
    {
        self.bits
    }

    pub fn nan(&self) -> (r: bool)
        ensures
            r == self.is_nan(),
    {
        self.bits & EXPONENT_MASK == EXPONENT_MASK && self.bits & FRACTION_MASK != 0
    }

    pub fn zero(&self) -> (r: bool)
        ensures
            r == self.is_zero(),
    {
        self.bits & MAGNITUDE_MASK == 0
    }

    fn ordinal_cmp(&self, other: &Number) -> (r: i8)
        ensures
            r == 0 <==> self.ordinal() == other.ordinal(),
            r < 0 <==> self.ordinal() < other.ordinal(),
    {
        let a = self.bits & MAGNITUDE_MASK;
        let b = other.bits & MAGNITUDE_MASK;
        let na = self.bits & SIGN_MASK != 0;
        let nb = other.bits & SIGN_MASK != 0;
        let x: i128 = if na { -(a as i128) } else { a as i128 };
        let y: i128 = if nb { -(b as i128) } else { b as i128 };
        if x < y {
            -1
        } else if x == y {
            0
        } else {
            1
        }
    }

    pub fn equals(&self, other: &Number) -> (r: bool)
        ensures
            r == self.num_eq(*other),
    {
        !self.nan() && !other.nan() && self.ordinal_cmp(other) == 0
    }

    pub fn less_than(&self, other: &Number) -> (r: bool)
        ensures
            r == self.num_lt(*other),
    {
        !self.nan() && !other.nan() && self.ordinal_cmp(other) < 0
    }

    pub fn less_equal(&self, other: &Number) -> (r: bool)
        ensures
            r == self.num_le(*other),
    {
        !self.nan() && !other.nan() && self.ordinal_cmp(other) <= 0
    }

    /// IEEE-754 negation flips the sign bit and nothing else.
    pub fn negate(&self) -> (r: Number)
        ensures
            r.bits == self.bits ^ SIGN_MASK,
            r.magnitude() == self.magnitude(),
            r.negative() == !self.negative(),
            r.is_nan() == self.is_nan(),
    {
        let r = Number { bits: self.bits ^ SIGN_MASK };
        let b = self.bits;
        assert((b ^ 0x8000_0000_0000_0000u64) & 0x7FFF_FFFF_FFFF_FFFFu64 == b & 0x7FFF_FFFF_FFFF_FFFFu64)
            by (bit_vector);
        assert(((b ^ 0x8000_0000_0000_0000u64) & 0x8000_0000_0000_0000u64 != 0) == (b & 0x8000_0000_0000_0000u64 == 0))
            by (bit_vector);
        assert((b ^ 0x8000_0000_0000_0000u64) & 0x7FF0_0000_0000_0000u64 == b & 0x7FF0_0000_0000_0000u64)
            by (bit_vector);
        assert((b ^ 0x8000_0000_0000_0000u64) & 0x000F_FFFF_FFFF_FFFFu64 == b & 0x000F_FFFF_FFFF_FFFFu64)
            by (bit_vector);
        r
    }
}

/// NaN is unequal to every number, itself included.
pub proof fn lemma_nan_unequal(a: Number, b: Number)
    requires
        a.is_nan(),
    ensures
        !a.num_eq(b),
        !b.num_eq(a),
{
}

} // verus!
