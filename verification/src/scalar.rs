//! Double-precision values that the window manager carries and compares but
//! never computes with.
//!
//! A [`Scalar`] is the IEEE 754 bit pattern of a double. Comparing two doubles
//! needs no arithmetic: read as sign and magnitude, the bit patterns of all
//! doubles that are numbers are ordered like the numbers themselves.

use vstd::prelude::*;

verus! {

/// The bit that says that a double is negative.
pub const SIGN_BIT: u64 = 0x8000_0000_0000_0000;

/// The magnitude of an infinity; every larger magnitude is a NaN.
pub const INFINITY_BITS: u64 = 0x7ff0_0000_0000_0000;

/// The quiet NaN.
pub const NAN_BITS: u64 = 0x7ff8_0000_0000_0000;

/// One.
pub const ONE_BITS: u64 = 0x3ff0_0000_0000_0000;

/// One half.
pub const HALF_BITS: u64 = 0x3fe0_0000_0000_0000;

/// A double-precision value, held as its bit pattern.
#[derive(Clone, Copy, Debug)]
pub struct Scalar {
    pub bits: u64,
}

impl Scalar {
    /// The bit pattern without the sign.
    pub open spec fn magnitude(self) -> int {
        if self.bits >= SIGN_BIT {
            self.bits - SIGN_BIT
        } else {
            self.bits as int
        }
    }

    /// The value is no number.
    pub open spec fn nan(self) -> bool {
        self.magnitude() > INFINITY_BITS
    }

    /// Where a number stands among all numbers; both zeros stand at 0.
    pub open spec fn rank(self) -> int {
        if self.bits >= SIGN_BIT {
            -self.magnitude()
        } else {
            self.magnitude()
        }
    }

    /// Where a value stands in the total order of all bit patterns, in which a
    /// negative zero precedes a positive one and a NaN lies beyond its infinity.
    pub open spec fn total_rank(self) -> int {
        if self.bits >= SIGN_BIT {
            -self.magnitude() - 1
        } else {
            self.magnitude()
        }
    }

    /// `self < other`, as doubles compare.
    pub open spec fn below(self, other: Scalar) -> bool {
        !self.nan() && !other.nan() && self.rank() < other.rank()
    }

    /// `self == other`, as doubles compare.
    pub open spec fn same_number(self, other: Scalar) -> bool {
        !self.nan() && !other.nan() && self.rank() == other.rank()
    }

    /// `self >= other`, as doubles compare.
    pub open spec fn at_least_spec(self, other: Scalar) -> bool {
        !self.nan() && !other.nan() && self.rank() >= other.rank()
    }

    /// The larger of two values; a NaN loses against any number.
    pub open spec fn larger(self, other: Scalar) -> Scalar {
        if self.nan() || self.below(other) {
            other
        } else {
            self
        }
    }

    /// The value, moved to the nearer end of `lo..=hi` when it lies outside.
    pub open spec fn clamped(self, lo: Scalar, hi: Scalar) -> Scalar {
        if self.below(lo) {
            lo
        } else if hi.below(self) {
            hi
        } else {
            self
        }
    }

    pub fn from_bits(bits: u64) -> (s: Scalar)
        ensures
            s.bits == bits,
    {
        Scalar { bits }
    }

    /// Positive zero.
    pub fn zero() -> (s: Scalar)
        ensures
            s.bits == 0,
    {
        Scalar { bits: 0 }
    }

    /// One.
    pub fn one() -> (s: Scalar)
        ensures
            s.bits == ONE_BITS,
    {
        Scalar { bits: ONE_BITS }
    }

    /// One half.
    pub fn half() -> (s: Scalar)
        ensures
            s.bits == HALF_BITS,
    {
        Scalar { bits: HALF_BITS }
    }

    /// The quiet NaN.
    pub fn not_a_number() -> (s: Scalar)
        ensures
            s.bits == NAN_BITS,
            s.nan(),
    {
        Scalar { bits: NAN_BITS }
    }

    pub fn is_nan(self) -> (b: bool)
        ensures
            b == self.nan(),
    {
        if self.bits >= SIGN_BIT {
            self.bits - SIGN_BIT > INFINITY_BITS
        } else {
            self.bits > INFINITY_BITS
        }
    }

    /// `self < other`; false when either is a NaN.
    pub fn less_than(self, other: Scalar) -> (b: bool)
        ensures
            b == self.below(other),
    {
        if self.is_nan() || other.is_nan() {
            false
        } else if self.bits >= SIGN_BIT {
            if other.bits >= SIGN_BIT {
                other.bits < self.bits
            } else {
                self.bits > SIGN_BIT || other.bits > 0
            }
        } else {
            other.bits < SIGN_BIT && self.bits < other.bits
        }
    }

    /// `self >= other`; false when either is a NaN.
    pub fn at_least(self, other: Scalar) -> (b: bool)
        ensures
            b == self.at_least_spec(other),
    {
        !self.is_nan() && !other.is_nan() && !self.less_than(other)
    }

    /// Whether `self` strictly precedes `other` in the total order.
    pub fn precedes(self, other: Scalar) -> (b: bool)
        ensures
            b == (self.total_rank() < other.total_rank()),
    {
        if self.bits >= SIGN_BIT {
            other.bits < SIGN_BIT || other.bits < self.bits
        } else {
            other.bits < SIGN_BIT && self.bits < other.bits
        }
    }

    /// The larger of two values; a NaN loses against any number. Of two zeros,
    /// `self` is returned.
    pub fn max(self, other: Scalar) -> (s: Scalar)
        ensures
            s == self.larger(other),
    {
        if self.is_nan() || self.less_than(other) {
            other
        } else {
            self
        }
    }

    /// Restricts a value to `lo..=hi`. A NaN stays a NaN.
    pub fn clamp(self, lo: Scalar, hi: Scalar) -> (s: Scalar)
        requires
            hi.at_least_spec(lo),
        ensures
            s == self.clamped(lo, hi),
            !self.nan() ==> s.at_least_spec(lo) && hi.at_least_spec(s),
    {
        if self.less_than(lo) {
            lo
        } else if hi.less_than(self) {
            hi
        } else {
            self
        }
    }
}

impl PartialEq for Scalar {
    /// Equality of doubles: both zeros are equal, a NaN equals nothing.
    fn eq(&self, other: &Scalar) -> (b: bool) {
        if self.is_nan() || other.is_nan() {
            false
        } else {
            self.bits == other.bits || ((self.bits == 0 || self.bits == SIGN_BIT) && (other.bits
                == 0 || other.bits == SIGN_BIT))
        }
    }
}

impl vstd::std_specs::cmp::PartialEqSpecImpl for Scalar {
    open spec fn obeys_eq_spec() -> bool {
        true
    }

    open spec fn eq_spec(&self, other: &Scalar) -> bool {
        self.same_number(*other)
    }
}

/// `<` on doubles that are numbers is a strict weak order: of two numbers
/// exactly one comes first unless they are the same number, and coming first is
/// passed on.
pub proof fn lemma_below_orders_numbers(a: Scalar, b: Scalar, c: Scalar)
    requires
        !a.nan(),
        !b.nan(),
        !c.nan(),
    ensures
        !a.below(a),
        a.below(b) && b.below(c) ==> a.below(c),
        a.below(b) || b.below(a) || a.same_number(b),
        !(a.below(b) && b.below(a)),
        a.below(b) ==> !a.same_number(b),
{
}

/// The total order tells any two bit patterns apart, and agrees with `<`
/// wherever `<` holds.
pub proof fn lemma_total_order(a: Scalar, b: Scalar)
    ensures
        a.total_rank() == b.total_rank() ==> a == b,
        a.below(b) ==> a.total_rank() < b.total_rank(),
{
}

/// Numbers compare by sign first and by magnitude then: of two positive ones the
/// one with the smaller bit pattern is smaller, of two negative ones that with the
/// larger bit pattern, and a negative one is below a positive one unless both are
/// zero. Nothing compares with a NaN.
pub proof fn lemma_numbers_compare_by_sign_and_magnitude(a: Scalar, b: Scalar)
    ensures
        a.nan() <==> 0x7ff0_0000_0000_0000 < a.bits < 0x8000_0000_0000_0000 || a.bits
            > 0xfff0_0000_0000_0000,
        a.nan() || b.nan() ==> !a.below(b) && !a.same_number(b) && !a.at_least_spec(b),
        !a.nan() && !b.nan() ==> {
            let minus_a = a.bits >= 0x8000_0000_0000_0000;
            let minus_b = b.bits >= 0x8000_0000_0000_0000;
            &&& !minus_a && !minus_b ==> (a.below(b) <==> a.bits < b.bits)
            &&& minus_a && minus_b ==> (a.below(b) <==> a.bits > b.bits)
            &&& minus_a && !minus_b ==> (a.below(b) <==> a.bits > 0x8000_0000_0000_0000 || b.bits
                > 0)
            &&& !minus_a && minus_b ==> !a.below(b)
            &&& a.at_least_spec(b) <==> !a.below(b)
            &&& a.same_number(b) <==> !a.below(b) && !b.below(a)
        },
{
}

/// The larger of two numbers is one of them and below neither; a NaN is returned
/// only where both are NaN.
pub proof fn lemma_larger_is_above_both(a: Scalar, b: Scalar)
    ensures
        a.larger(b) == a || a.larger(b) == b,
        !a.larger(b).below(a),
        !a.larger(b).below(b),
        a.larger(b).nan() <==> a.nan() && b.nan(),
{
}

/// Clamping keeps what lies between the bounds and moves the rest to the nearer
/// bound; a NaN stays, and clamping a second time changes nothing.
pub proof fn lemma_clamped_lies_between(a: Scalar, lo: Scalar, hi: Scalar)
    requires
        hi.at_least_spec(lo),
    ensures
        a.nan() ==> a.clamped(lo, hi) == a,
        !a.nan() ==> a.clamped(lo, hi).at_least_spec(lo) && hi.at_least_spec(a.clamped(lo, hi)),
        a.at_least_spec(lo) && hi.at_least_spec(a) ==> a.clamped(lo, hi) == a,
        a.below(lo) ==> a.clamped(lo, hi) == lo,
        hi.below(a) ==> a.clamped(lo, hi) == hi,
        a.clamped(lo, hi).clamped(lo, hi) == a.clamped(lo, hi),
{
}

/// In the total order every negative bit pattern comes before every positive one, the
/// positive ones follow their bits and the negative ones go against them; so a negative
/// NaN comes first of all and a positive one last.
pub proof fn lemma_total_order_by_bits(a: Scalar, b: Scalar)
    ensures
        a.bits < 0x8000_0000_0000_0000 && b.bits < 0x8000_0000_0000_0000 ==> (a.total_rank()
            < b.total_rank() <==> a.bits < b.bits),
        a.bits >= 0x8000_0000_0000_0000 && b.bits >= 0x8000_0000_0000_0000 ==> (a.total_rank()
            < b.total_rank() <==> a.bits > b.bits),
        a.bits >= 0x8000_0000_0000_0000 && b.bits < 0x8000_0000_0000_0000 ==> a.total_rank()
            < b.total_rank(),
{
}

} // verus!
