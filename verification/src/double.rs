//! Double-precision numbers, held by their bit patterns: which are finite, how they compare and
//! how they are clamped. Nothing here computes with them.
use vstd::prelude::*;

verus! {

/// A number in the format of IEEE 754 binary64, by its bits.
#[derive(Clone, Copy, Debug)]
pub struct Double {
    pub bits: u64,
}

/// The bits of a number without its sign.
pub open spec fn magnitude(bits: u64) -> int {
    bits as int % 0x8000_0000_0000_0000
}

/// Whether the sign bit is set.
pub open spec fn is_negative(bits: u64) -> bool {
    bits >= 0x8000_0000_0000_0000
}

/// The magnitude of infinity; the magnitudes above it are those of values that are no number.
pub open spec fn infinity() -> int {
    0x7ff0_0000_0000_0000
}

/// The bits of one.
pub open spec fn one_bits() -> u64 {
    0x3ff0_0000_0000_0000
}

impl Double {
    /// Whether the value is no number at all.
    pub open spec fn is_nan(self) -> bool {
        magnitude(self.bits) > infinity()
    }

    /// Whether the value is a number other than an infinity.
    pub open spec fn finite(self) -> bool {
        magnitude(self.bits) < infinity()
    }

    /// A number's place in the order of all numbers; both zeros have the same.
    pub open spec fn rank(self) -> int {
        if is_negative(self.bits) {
            -magnitude(self.bits)
        } else {
            magnitude(self.bits)
        }
    }

    /// Whether two values are numerically equal.
    pub open spec fn equal(self, other: Double) -> bool {
        !self.is_nan() && !other.is_nan() && self.rank() == other.rank()
    }

    /// Whether this value is numerically below another.
    pub open spec fn less(self, other: Double) -> bool {
        !self.is_nan() && !other.is_nan() && self.rank() < other.rank()
    }

    /// Whether the value lies between zero and one, both counted in.
    pub open spec fn in_unit_interval(self) -> bool {
        !self.is_nan() && 0 <= self.rank() <= one_bits()
    }

    /// The value moved into the span from zero to one; zero where it is not finite.
    pub open spec fn clamped(self) -> Double {
        if !self.finite() || self.rank() < 0 {
            Double { bits: 0 }
        } else if self.rank() > one_bits() {
            Double { bits: one_bits() }
        } else {
            self
        }
    }

    /// The value of some bits.
    pub fn from_bits(bits: u64) -> (r: Double)
        ensures
            r.bits == bits,
    {
        Double { bits }
    }

    /// Zero.
    pub fn zero() -> (r: Double)
        ensures
            r.bits == 0,
    {
        Double { bits: 0 }
    }

    /// One.
    pub fn one() -> (r: Double)
        ensures
            r.bits == one_bits(),
    {
        Double { bits: 0x3ff0_0000_0000_0000 }
    }

    fn order(self) -> (r: i128)
        ensures
            r == self.rank(),
    {
        let size: u64 = self.bits % 0x8000_0000_0000_0000;
        if self.bits >= 0x8000_0000_0000_0000 {
            -(size as i128)
        } else {
            size as i128
        }
    }

    /// Whether the value is no number at all.
    pub fn nan(self) -> (r: bool)
        ensures
            r == self.is_nan(),
    {
        self.bits % 0x8000_0000_0000_0000 > 0x7ff0_0000_0000_0000
    }

    /// Whether the value is a number other than an infinity.
    pub fn is_finite(self) -> (r: bool)
        ensures
            r == self.finite(),
    {
        self.bits % 0x8000_0000_0000_0000 < 0x7ff0_0000_0000_0000
    }

    /// Whether two values are numerically equal.
    pub fn equals(self, other: Double) -> (r: bool)
        ensures
            r == self.equal(other),
    {
        !self.nan() && !other.nan() && self.order() == other.order()
    }

    /// Whether this value is numerically below another.
    pub fn below(self, other: Double) -> (r: bool)
        ensures
            r == self.less(other),
    {
        !self.nan() && !other.nan() && self.order() < other.order()
    }

    /// Whether the value lies between zero and one, both counted in.
    pub fn within_unit(self) -> (r: bool)
        ensures
            r == self.in_unit_interval(),
    {
        !self.nan() && 0 <= self.order() && self.order() <= 0x3ff0_0000_0000_0000
    }

    /// The value moved into the span from zero to one; zero where it is not finite.
    pub fn clamp_unit(self) -> (r: Double)
        ensures
            r == self.clamped(),
    {
        if !self.is_finite() || self.order() < 0 {
            Double { bits: 0 }
        } else if self.order() > 0x3ff0_0000_0000_0000 {
            Double { bits: 0x3ff0_0000_0000_0000 }
        } else {
            self
        }
    }
}

impl PartialEq for Double {
    fn eq(&self, other: &Double) -> (r: bool) {
        self.equals(*other)
    }
}

impl vstd::std_specs::cmp::PartialEqSpecImpl for Double {
    open spec fn obeys_eq_spec() -> bool {
        true
    }

    open spec fn eq_spec(&self, other: &Double) -> bool {
        self.equal(*other)
    }
}

/// Two values are equal exactly where they are numbers with the same bits, or both zeros, whatever
/// their signs.
pub proof fn law_equal_by_bits(a: Double, b: Double)
    ensures
        a.equal(b) <==> {
            &&& a.bits == b.bits || ((a.bits == 0 || a.bits == 0x8000_0000_0000_0000) && (b.bits == 0
                || b.bits == 0x8000_0000_0000_0000))
            &&& !(0x7ff0_0000_0000_0000 < a.bits < 0x8000_0000_0000_0000)
            &&& a.bits <= 0xfff0_0000_0000_0000
        },
{
}

/// Of two numbers one is below the other or they are equal, and never both; what is no number is
/// neither.
pub proof fn law_numbers_are_ordered(a: Double, b: Double)
    ensures
        a.less(b) ==> !b.less(a) && !a.equal(b),
        a.finite() && b.finite() ==> a.less(b) || b.less(a) || a.equal(b),
        a.is_nan() ==> !a.less(b) && !b.less(a) && !a.equal(b),
        a.bits < b.bits && b.bits <= 0x7ff0_0000_0000_0000 ==> a.less(b),
        0x8000_0000_0000_0000 <= a.bits < b.bits && b.bits <= 0xfff0_0000_0000_0000 ==> b.less(a),
        0x8000_0000_0000_0000 < a.bits <= 0xfff0_0000_0000_0000 && b.bits <= 0x7ff0_0000_0000_0000
            ==> a.less(b),
{
}

/// What lies between zero and one, by the bits: a negative zero, and everything from zero up to
/// one.
pub proof fn law_unit_interval_by_bits(value: Double)
    ensures
        value.in_unit_interval() <==> (value.bits <= 0x3ff0_0000_0000_0000 || value.bits
            == 0x8000_0000_0000_0000),
        value.finite() && 0x3ff0_0000_0000_0000 < value.bits < 0x8000_0000_0000_0000
            ==> value.clamped().bits == 0x3ff0_0000_0000_0000,
        value.bits > 0x8000_0000_0000_0000 ==> value.clamped().bits == 0,
        !value.finite() ==> value.clamped().bits == 0,
        value.finite() <==> (value.bits < 0x7ff0_0000_0000_0000 || 0x8000_0000_0000_0000
            <= value.bits < 0xfff0_0000_0000_0000),
{
}

/// Clamping always gives a value between zero and one.
pub proof fn law_clamped_in_unit_interval(value: Double)
    ensures
        value.clamped().in_unit_interval(),
{
}

/// Clamping leaves what is already between zero and one.
pub proof fn law_clamp_keeps_unit_interval(value: Double)
    requires
        value.in_unit_interval(),
    ensures
        value.clamped() == value,
{
}

} // verus!
