//! Doubles and integers: the double that holds an integer, and the integer
//! nearest to a double.

use crate::geometry::saturating_i32;
use crate::scalar::{Scalar, SIGN_BIT};
use vstd::arithmetic::power2::pow2;
use vstd::prelude::*;

verus! {

/// Two to the power of 52: the fraction of a double has 52 bits, and the leading
/// one above them is not written down.
pub const LEADING_ONE: u64 = 0x0010_0000_0000_0000;

impl Scalar {
    /// The exponent as it is written down.
    pub open spec fn exponent(self) -> int {
        self.magnitude() / (LEADING_ONE as int)
    }

    /// The digits of a number, with the leading one unless the exponent is 0.
    pub open spec fn significand(self) -> int {
        if self.exponent() == 0 {
            self.magnitude()
        } else {
            LEADING_ONE + self.magnitude() % (LEADING_ONE as int)
        }
    }

    /// The size of a number is `numerator / denominator`.
    pub open spec fn numerator(self) -> int {
        if self.exponent() >= 1075 {
            self.significand() * pow2((self.exponent() - 1075) as nat)
        } else {
            self.significand()
        }
    }

    /// The size of a number is `numerator / denominator`.
    pub open spec fn denominator(self) -> int {
        if self.exponent() >= 1075 {
            1
        } else if self.exponent() == 0 {
            pow2(1074) as int
        } else {
            pow2((1075 - self.exponent()) as nat) as int
        }
    }

    /// The integer nearest to a number, halves away from zero; 0 for a NaN.
    pub open spec fn nearest(self) -> int {
        let size = (2 * self.numerator() + self.denominator()) / (2 * self.denominator());
        if self.nan() {
            0
        } else if self.bits >= SIGN_BIT {
            -size
        } else {
            size
        }
    }

    /// The bit pattern of `digits * 2^(exponent - 52)`, for digits of at most 53
    /// bits: the digits move up until the leading one stands at bit 52.
    pub open spec fn encoded(digits: int, exponent: int) -> int
        decreases 2 * LEADING_ONE - digits,
    {
        if digits >= LEADING_ONE || digits <= 0 {
            (1022 + exponent) * LEADING_ONE + digits
        } else {
            Self::encoded(2 * digits, exponent - 1)
        }
    }

    /// The bit pattern of an integer.
    pub open spec fn int_bits(n: int) -> int {
        if n == 0 {
            0
        } else if n < 0 {
            SIGN_BIT + Self::encoded(-n, 52)
        } else {
            Self::encoded(n, 52)
        }
    }

    /// The double that holds an integer.
    pub open spec fn of_int(n: int) -> Scalar {
        Scalar { bits: Self::int_bits(n) as u64 }
    }

    /// The double that holds an integer.
    pub fn from_i32(n: i32) -> (s: Scalar)
        ensures
            s == Self::of_int(n as int),
            s.bits == Self::int_bits(n as int),
            !s.nan(),
    {
        if n == 0 {
            return Scalar { bits: 0 };
        }
        let size: u64 = if n < 0 {
            (-(n as i64)) as u64
        } else {
            n as u64
        };
        let mut digits: u64 = size;
        let mut field: u64 = 1074;
        proof {
            vstd::arithmetic::power2::lemma2_to64();
            vstd::arithmetic::power2::lemma2_to64_rest();
        }
        while digits < LEADING_ONE
            invariant
                0 < digits < 2 * LEADING_ONE,
                1021 <= field <= 1074,
                Self::encoded(digits as int, field - 1022) == Self::encoded(size as int, 52),
                pow2((1074 - field) as nat) <= digits,
            decreases 2 * LEADING_ONE - digits,
        {
            proof {
                vstd::arithmetic::power2::lemma_pow2_unfold((1075 - field) as nat);
                vstd::arithmetic::power2::lemma2_to64_rest();
                if field == 1021 {
                    assert(pow2(53) > LEADING_ONE);
                }
                if field == 1022 {
                    assert(pow2(52) == LEADING_ONE);
                }
            }
            digits = 2 * digits;
            field = field - 1;
        }
        let bits: u64 = field * LEADING_ONE + digits;
        if n < 0 {
            Scalar { bits: SIGN_BIT + bits }
        } else {
            Scalar { bits }
        }
    }

    /// The integer nearest to a number, halves away from zero, moved into the
    /// range of `i32`; 0 for a NaN.
    pub fn round_to_i32(self) -> (n: i32)
        ensures
            n == crate::geometry::saturated(self.nearest()),
    {
        if self.is_nan() {
            return 0;
        }
        let negative: bool = self.bits >= SIGN_BIT;
        let magnitude: u64 = if negative {
            self.bits - SIGN_BIT
        } else {
            self.bits
        };
        let exponent: u64 = magnitude / LEADING_ONE;
        if exponent < 1022 {
            proof {
                self.lemma_small_rounds_to_zero();
            }
            return 0;
        }
        if exponent >= 1075 {
            proof {
                self.lemma_large_is_out_of_range();
            }
            return if negative {
                i32::MIN
            } else {
                i32::MAX
            };
        }
        let digits: u64 = LEADING_ONE + magnitude % LEADING_ONE;
        let mut unit: u64 = 1;
        let mut k: u64 = 0;
        proof {
            vstd::arithmetic::power2::lemma2_to64();
            vstd::arithmetic::power2::lemma2_to64_rest();
        }
        while k < 1075 - exponent
            invariant
                k <= 1075 - exponent,
                1022 <= exponent < 1075,
                unit == pow2(k as nat),
                pow2(53) == 2 * LEADING_ONE,
                unit <= 2 * LEADING_ONE,
            decreases 1075 - exponent - k,
        {
            proof {
                vstd::arithmetic::power2::lemma_pow2_unfold((k + 1) as nat);
                if k + 1 < 53 {
                    vstd::arithmetic::power2::lemma_pow2_strictly_increases((k + 1) as nat, 53);
                }
            }
            unit = 2 * unit;
            k = k + 1;
        }
        let size: u64 = (2 * digits + unit) / (2 * unit);
        assert(size <= 2 * digits + unit) by (nonlinear_arith)
            requires
                size == (2 * digits + unit) / (2 * unit),
                unit >= 1,
        ;
        if negative {
            saturating_i32(-(size as i64))
        } else {
            saturating_i32(size as i64)
        }
    }

    /// A number below one half rounds to zero.
    proof fn lemma_small_rounds_to_zero(self)
        requires
            !self.nan(),
            self.exponent() < 1022,
        ensures
            self.nearest() == 0,
    {
        vstd::arithmetic::power2::lemma2_to64_rest();
        let num = self.numerator();
        let den = self.denominator();
        let e: nat = if self.exponent() == 0 {
            1074
        } else {
            (1075 - self.exponent()) as nat
        };
        assert(den == pow2(e));
        vstd::arithmetic::power2::lemma_pow2_strictly_increases(53, e);
        assert(num < 2 * LEADING_ONE);
        assert(den > 2 * LEADING_ONE);
        vstd::arithmetic::power2::lemma_pow2_unfold(e);
        vstd::arithmetic::power2::lemma_pow2_unfold(54);
        if e > 54 {
            vstd::arithmetic::power2::lemma_pow2_strictly_increases(54, e);
        }
        assert(den >= 4 * LEADING_ONE);
        assert(2 * num + den < 2 * den);
        vstd::arithmetic::div_mod::lemma_basic_div(2 * num + den, 2 * den);
    }

    /// A number from two to the power of 52 on lies outside of the range of
    /// `i32`.
    proof fn lemma_large_is_out_of_range(self)
        requires
            !self.nan(),
            self.exponent() >= 1075,
        ensures
            self.bits >= SIGN_BIT ==> self.nearest() < i32::MIN,
            self.bits < SIGN_BIT ==> self.nearest() > i32::MAX,
    {
        let unit = pow2((self.exponent() - 1075) as nat);
        vstd::arithmetic::power2::lemma_pow2_pos((self.exponent() - 1075) as nat);
        let digits = self.significand();
        assert(digits >= LEADING_ONE);
        assert(digits * unit >= LEADING_ONE) by (nonlinear_arith)
            requires
                digits >= LEADING_ONE,
                unit >= 1,
        ;
        let num = self.numerator();
        assert((2 * num + 1) / 2 == num);
    }
}

/// The bit pattern of digits that move up stays below that of the next power of
/// two.
proof fn lemma_encoded_bounded(digits: int, exponent: int)
    requires
        0 < digits < 2 * LEADING_ONE,
    ensures
        Scalar::encoded(digits, exponent) < (1024 + exponent) * LEADING_ONE,
    decreases 2 * LEADING_ONE - digits,
{
    if digits < LEADING_ONE {
        lemma_encoded_bounded(2 * digits, exponent - 1);
    }
}

/// Larger digits have a larger bit pattern.
proof fn lemma_encoded_grows(a: int, b: int, exponent: int)
    requires
        0 < a < b < 2 * LEADING_ONE,
    ensures
        Scalar::encoded(a, exponent) < Scalar::encoded(b, exponent),
    decreases 2 * LEADING_ONE - a,
{
    if a < LEADING_ONE {
        if b < LEADING_ONE {
            lemma_encoded_grows(2 * a, 2 * b, exponent - 1);
        } else {
            lemma_encoded_bounded(2 * a, exponent - 1);
        }
    }
}

/// Digits with `k + 1` bits have at least this bit pattern.
proof fn lemma_encoded_from(digits: int, exponent: int, k: nat)
    requires
        pow2(k) <= digits < 2 * LEADING_ONE,
        k <= 52,
    ensures
        Scalar::encoded(digits, exponent) >= (971 + exponent + k) * LEADING_ONE,
    decreases 2 * LEADING_ONE - digits,
{
    vstd::arithmetic::power2::lemma_pow2_pos(k);
    vstd::arithmetic::power2::lemma2_to64_rest();
    if digits < LEADING_ONE {
        vstd::arithmetic::power2::lemma_pow2_unfold(k + 1);
        lemma_encoded_from(2 * digits, exponent - 1, k + 1);
    }
}

/// What the digits of an encoded number stand for.
proof fn lemma_encoded_value(size: int, digits: int, k: nat)
    requires
        digits == size * pow2(k),
        0 < digits < 2 * LEADING_ONE,
        k <= 52,
        size >= 1,
    ensures
        ({
            let s = Scalar { bits: Scalar::encoded(digits, 52 - k) as u64 };
            &&& Scalar::encoded(digits, 52 - k) < SIGN_BIT
            &&& !s.nan()
            &&& s.numerator() == size * s.denominator()
            &&& s.denominator() >= 1
        }),
    decreases 2 * LEADING_ONE - digits,
{
    vstd::arithmetic::power2::lemma2_to64();
    vstd::arithmetic::power2::lemma2_to64_rest();
    if digits < LEADING_ONE {
        vstd::arithmetic::power2::lemma_pow2_unfold(k + 1);
        let unit = pow2(k) as int;
        assert(2 * digits == size * (2 * unit)) by (nonlinear_arith)
            requires
                digits == size * unit,
        ;
        if k == 52 {
            assert(digits >= unit) by (nonlinear_arith)
                requires
                    digits == size * unit,
                    size >= 1,
                    unit >= 0,
            ;
        }
        lemma_encoded_value(size, 2 * digits, k + 1);
    } else {
        let bits = Scalar::encoded(digits, 52 - k);
        let s = Scalar { bits: bits as u64 };
        assert(bits == (1074 - k) * LEADING_ONE + digits);
        vstd::arithmetic::div_mod::lemma_fundamental_div_mod_converse(
            bits,
            LEADING_ONE as int,
            1075 - k,
            digits - LEADING_ONE,
        );
        assert(s.exponent() == 1075 - k);
        assert(s.significand() == digits);
        vstd::arithmetic::power2::lemma_pow2_pos(k);
    }
}

/// The double that holds an integer has its value, and rounds back to it.
pub proof fn lemma_of_int_value(n: int)
    requires
        i32::MIN <= n <= i32::MAX,
    ensures
        !Scalar::of_int(n).nan(),
        Scalar::of_int(n).bits == Scalar::int_bits(n),
        Scalar::of_int(n).numerator() == (if n < 0 {
            -n
        } else {
            n
        }) * Scalar::of_int(n).denominator(),
        (Scalar::of_int(n).bits >= SIGN_BIT) == (n < 0),
        Scalar::of_int(n).nearest() == n,
{
    let size = if n < 0 {
        -n
    } else {
        n
    };
    let s = Scalar::of_int(n);
    if n == 0 {
        vstd::arithmetic::power2::lemma_pow2_pos(1074);
        assert(s.numerator() == 0);
        assert(n * s.denominator() == 0) by (nonlinear_arith)
            requires
                n == 0,
        ;
        s.lemma_small_rounds_to_zero();
    } else {
        vstd::arithmetic::power2::lemma2_to64();
        lemma_encoded_value(size, size, 0);
        let bits = Scalar::encoded(size, 52);
        lemma_encoded_from(size, 52, 0);
        let plain = Scalar { bits: bits as u64 };
        assert(s.magnitude() == plain.magnitude());
        let num = s.numerator();
        let den = s.denominator();
        assert(num == size * den);
        assert((2 * num + den) / (2 * den) == size) by {
            assert(2 * num + den == size * (2 * den) + den) by (nonlinear_arith)
                requires
                    num == size * den,
            ;
            vstd::arithmetic::div_mod::lemma_fundamental_div_mod_converse(
                2 * num + den,
                2 * den,
                size,
                den,
            );
        }
    }
}

/// Doubles that hold integers compare like the integers.
pub proof fn lemma_of_int_orders(a: int, b: int)
    requires
        i32::MIN <= a <= i32::MAX,
        i32::MIN <= b <= i32::MAX,
    ensures
        Scalar::of_int(a).below(Scalar::of_int(b)) <==> a < b,
        Scalar::of_int(a).at_least_spec(Scalar::of_int(b)) <==> a >= b,
        Scalar::of_int(a).same_number(Scalar::of_int(b)) <==> a == b,
{
    lemma_of_int_value(a);
    lemma_of_int_value(b);
    vstd::arithmetic::power2::lemma2_to64();
    if a != 0 {
        lemma_encoded_from(if a < 0 {
            -a
        } else {
            a
        }, 52, 0);
    }
    if b != 0 {
        lemma_encoded_from(if b < 0 {
            -b
        } else {
            b
        }, 52, 0);
    }
    if 0 < a < b {
        lemma_encoded_grows(a, b, 52);
    }
    if 0 < b < a {
        lemma_encoded_grows(b, a, 52);
    }
    if a < b < 0 {
        lemma_encoded_grows(-b, -a, 52);
    }
    if b < a < 0 {
        lemma_encoded_grows(-a, -b, 52);
    }
}

/// The bit patterns of one and of one half are those numbers.
pub proof fn lemma_one_and_half()
    ensures
        Scalar::of_int(1).bits == crate::scalar::ONE_BITS,
        !(Scalar { bits: crate::scalar::HALF_BITS }).nan(),
        crate::scalar::HALF_BITS < SIGN_BIT,
        2 * (Scalar { bits: crate::scalar::HALF_BITS }).numerator() == (Scalar {
            bits: crate::scalar::HALF_BITS,
        }).denominator(),
{
    reveal_with_fuel(Scalar::encoded, 54);
    vstd::arithmetic::power2::lemma2_to64_rest();
    let half = Scalar { bits: crate::scalar::HALF_BITS };
    assert(half.exponent() == 1022);
}

/// Rounding goes to the nearest integer: the integer that a number is rounded to
/// is at most one half away from it, and of two equally near ones it is the one
/// further from zero. The sign is kept, and a NaN becomes 0.
pub proof fn lemma_rounds_to_the_nearest(s: Scalar)
    ensures
        s.nan() ==> s.nearest() == 0,
        !s.nan() ==> {
            let size = if s.bits >= SIGN_BIT { -s.nearest() } else { s.nearest() };
            &&& size >= 0
            &&& s.denominator() >= 1
            &&& 2 * (s.numerator() - size * s.denominator()) < s.denominator()
            &&& 2 * (size * s.denominator() - s.numerator()) <= s.denominator()
        },
{
    if !s.nan() {
        let num = s.numerator();
        let den = s.denominator();
        vstd::arithmetic::power2::lemma_pow2_pos(1074);
        if s.exponent() >= 1075 {
            vstd::arithmetic::power2::lemma_pow2_pos((s.exponent() - 1075) as nat);
        } else {
            vstd::arithmetic::power2::lemma_pow2_pos((1075 - s.exponent()) as nat);
        }
        assert(s.significand() >= 0);
        assert(num >= 0) by (nonlinear_arith)
            requires
                s.significand() >= 0,
                num == s.significand() || (exists|k: nat| num == s.significand() * pow2(k)),
        ;
        let size = (2 * num + den) / (2 * den);
        vstd::arithmetic::div_mod::lemma_fundamental_div_mod(2 * num + den, 2 * den);
        vstd::arithmetic::div_mod::lemma_mod_bound(2 * num + den, 2 * den);
        vstd::arithmetic::div_mod::lemma_div_pos_is_pos(2 * num + den, 2 * den);
        assert((2 * den) * size == 2 * (size * den)) by (nonlinear_arith);
    }
}

} // verus!
