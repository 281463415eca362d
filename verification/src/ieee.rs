//! Floating-point numbers held by their IEEE 754 bit patterns.
//!
//! Sensor sources report temperatures, loads and voltages as binary
//! floating-point numbers, and plots take every sample as one. The telemetry
//! state stores, orders and converts those numbers without floating-point
//! arithmetic: it keeps each one as the unsigned integer that encodes it.
//! Ordering is decided on the encoding, exactly as the hardware comparison
//! would decide it on the number, and conversions from integers round to the
//! nearest number, ties to the even significand, as the hardware does.

use vstd::arithmetic::power2::{lemma2_to64, lemma2_to64_rest, lemma_pow2_unfold, pow2};
use vstd::prelude::*;
use crate::rounding::{
    in_range_at, lemma_at_least, lemma_exponent_below_128, lemma_nearest_even_scaled, lemma_pow2_128,
    lemma_quotient_bounds, lemma_scale_at_unique, nearest_even, round_quotient, scale_at, scale_of,
    significand_at, significand_of,
};

verus! {

/// Two to the 23: the least significand of a single-precision number.
pub const SINGLE_LOW: u128 = 0x80_0000;

/// Two to the 52: the least significand of a double-precision number.
pub const DOUBLE_LOW: u128 = 0x10_0000_0000_0000;

/// The encoding of the single-precision number nearest to `num / den`, ties
/// going to the even significand: zero for a zero numerator; otherwise the
/// quotient is rounded to 24 binary digits, the exponent field is the scale
/// of the quotient and 86, and the fraction is the significand less its
/// leading digit. A significand that rounding takes up to two to the 24
/// carries into the exponent field.
pub open spec fn ratio_encoding(num: int, den: int) -> int {
    if num == 0 {
        0
    } else {
        (scale_of(num, den, 0x80_0000) as int + 86) * 0x80_0000 + (significand_of(
            num,
            den,
            0x80_0000,
        ) - 0x80_0000)
    }
}

/// The encoding of the double-precision number nearest to the integer `n`,
/// which is not negative, ties going to the even significand: zero for zero;
/// otherwise `n` is rounded to 53 binary digits, the exponent field is its
/// scale and 1011, and the fraction is the significand less its leading digit.
pub open spec fn whole_encoding(n: int) -> int {
    if n == 0 {
        0
    } else {
        (scale_of(n, 1, 0x10_0000_0000_0000) as int + 1011) * 0x10_0000_0000_0000 + (
        significand_of(n, 1, 0x10_0000_0000_0000) - 0x10_0000_0000_0000)
    }
}

/// The encoding of the double-precision number nearest to `n` billionths,
/// that is to `n` divided by one thousand million, for an `n` that is not
/// negative, ties going to the even significand: zero for zero; otherwise the
/// quotient is rounded to 53 binary digits, the exponent field is its scale
/// and 947, and the fraction is the significand less its leading digit. The
/// scale is counted on `n` times two to the 128, so that it is never negative.
pub open spec fn billionths_encoding(n: int) -> int {
    if n == 0 {
        0
    } else {
        (scale_at(
            n * 0x1_0000_0000_0000_0000_0000_0000_0000_0000int,
            1_000_000_000,
            0x10_0000_0000_0000,
        ) as int + 947) * 0x10_0000_0000_0000 + (significand_at(
            n * 0x1_0000_0000_0000_0000_0000_0000_0000_0000int,
            1_000_000_000,
            0x10_0000_0000_0000,
        ) - 0x10_0000_0000_0000)
    }
}

/// By how many binary digits a subnormal fraction has to be lifted to get a
/// leading digit, counted from `lift` on: `lift` itself where the fraction
/// times two to the `lift` reaches two to the 23 (or `lift` has reached 24),
/// and otherwise what holds from one more.
pub open spec fn lift_of(fraction: int, lift: nat) -> nat
    decreases 24 - lift,
{
    if lift >= 24 || fraction * pow2(lift) >= 0x80_0000 {
        lift
    } else {
        lift_of(fraction, lift + 1)
    }
}

/// How many binary digits `n` has beyond 24, counted from `digits` on:
/// `digits` itself where `n` divided by two to the `digits` is below two to
/// the 24 (or `digits` has reached 64), and otherwise what holds from one
/// digit more.
pub open spec fn excess_digits(n: int, digits: nat) -> nat
    decreases 64 - digits,
{
    if digits >= 64 || n / (pow2(digits) as int) < 0x100_0000 {
        digits
    } else {
        excess_digits(n, digits + 1)
    }
}

/// The power of two by which `n` must be divided to leave at most 24 binary
/// digits.
pub open spec fn unit_of(n: int) -> int {
    pow2(excess_digits(n, 0)) as int
}

/// The integer that the single-precision number nearest to `n` stands for:
/// `n` rounded to 24 binary digits, ties going to the even significand.
pub open spec fn rounded_whole(n: int) -> int {
    nearest_even(n, unit_of(n)) * unit_of(n)
}

/// A single-precision number, held as its 32-bit encoding.
#[derive(Clone, Copy, Debug, PartialEq, Eq, Structural)]
pub struct Single {
    pub bits: u32,
}

/// A double-precision number, held as its 64-bit encoding.
#[derive(Clone, Copy, Debug, PartialEq, Eq, Structural)]
pub struct Double {
    pub bits: u64,
}

impl Single {
    /// The encoding without its sign bit.
    pub open spec fn magnitude(self) -> int {
        self.bits as int % 0x8000_0000
    }

    /// Whether the sign bit is set.
    pub open spec fn negative(self) -> bool {
        self.bits >= 0x8000_0000
    }

    /// Whether the encoding stands for "not a number": all exponent bits set
    /// and a non-zero fraction.
    pub open spec fn is_nan(self) -> bool {
        self.magnitude() > 0x7f80_0000
    }

    /// An integer that orders the numbers as their values are ordered: the
    /// magnitude, negated under a sign bit. Both zeros have rank 0.
    pub open spec fn rank(self) -> int {
        if self.negative() {
            -self.magnitude()
        } else {
            self.magnitude()
        }
    }

    /// `self < other` as IEEE 754 defines it: false whenever either side is
    /// not a number.
    pub open spec fn lt_spec(self, other: Single) -> bool {
        !self.is_nan() && !other.is_nan() && self.rank() < other.rank()
    }

    /// The number with the encoding `bits`.
    pub fn from_bits(bits: u32) -> (s: Single)
        ensures
            s.bits == bits,
    {
        Single { bits }
    }

    /// The encoding of the number.
    pub fn to_bits(self) -> (bits: u32)
        ensures
            bits == self.bits,
    {
        self.bits
    }

    /// Whether the encoding stands for "not a number".
    pub fn is_nan_value(self) -> (b: bool)
        ensures
            b == self.is_nan(),
    {
        self.bits % 0x8000_0000 > 0x7f80_0000
    }

    /// The rank as a machine integer.
    pub fn rank_value(self) -> (r: i64)
        ensures
            r == self.rank(),
            -0x8000_0000 < r < 0x8000_0000,
    {
        let magnitude: u32 = self.bits % 0x8000_0000;
        if self.bits >= 0x8000_0000 {
            0i64 - magnitude as i64
        } else {
            magnitude as i64
        }
    }

    /// `self < other`.
    pub fn lt(self, other: Single) -> (b: bool)
        ensures
            b == self.lt_spec(other),
    {
        !self.is_nan_value() && !other.is_nan_value() && self.rank_value() < other.rank_value()
    }

    /// The number nearest to `num / den`.
    fn rounded_ratio(num: u64, den: u32) -> (single: Single)
        requires
            den > 0,
        ensures
            single.bits == ratio_encoding(num as int, den as int),
    {
        if num == 0 {
            return Single { bits: 0 };
        }
        proof {
            lemma2_to64();
        }
        let (significand, scale) = round_quotient(num, den, SINGLE_LOW, Ghost(23));
        Single { bits: (scale + 86) * 0x80_0000 + (significand - SINGLE_LOW) as u32 }
    }

    /// The number nearest to `num / den`, ties going to the even significand.
    pub open spec fn nearest_to(num: int, den: int) -> Single {
        Single { bits: ratio_encoding(num, den) as u32 }
    }

    /// The number nearest to the integer `n`.
    pub fn from_u32(n: u32) -> (single: Single)
        ensures
            single == Single::nearest_to(n as int, 1),
            single.bits == ratio_encoding(n as int, 1),
    {
        Single::rounded_ratio(n as u64, 1)
    }

    /// The integer that the number nearest to `n` stands for.
    pub fn rounded_whole_of(n: u32) -> (whole: u64)
        ensures
            whole == rounded_whole(n as int),
            n < 0x100_0000 ==> whole == n,
    {
        let mut unit: u64 = 1;
        let ghost mut digits: nat = 0;
        proof {
            lemma2_to64();
        }
        while n as u64 / unit >= 0x100_0000
            invariant
                digits <= 8,
                unit == pow2(digits),
                1 <= unit <= 256,
                excess_digits(n as int, digits) == excess_digits(n as int, 0),
                n < 0x100_0000 ==> unit == 1,
            decreases 8 - digits,
        {
            proof {
                lemma2_to64();
                lemma_pow2_unfold(digits + 1);
                if digits == 8 {
                    assert(unit == 256);
                    assert(n as u64 / 256 < 0x100_0000);
                }
            }
            unit = unit * 2;
            proof {
                digits = digits + 1;
            }
        }
        let quotient: u64 = n as u64 / unit;
        let remainder: u64 = n as u64 % unit;
        let up = remainder * 2 > unit || (remainder * 2 == unit && quotient % 2 == 1);
        let significand: u64 = if up {
            quotient + 1
        } else {
            quotient
        };
        assert(significand == nearest_even(n as int, unit as int));
        assert(unit_of(n as int) == unit);
        proof {
            lemma_at_least(0x100_0000, significand as int, unit as int);
        }
        significand * unit
    }

    /// The quotient by one thousand of the number nearest to `n`, as the
    /// nearest number: a quantity given in thousandths, in whole units, as
    /// single-precision arithmetic computes it from the integer.
    pub fn from_thousandths(n: u32) -> (single: Single)
        ensures
            single == Single::nearest_to(rounded_whole(n as int), 1000),
            n < 0x100_0000 ==> single == Single::nearest_to(n as int, 1000),
    {
        Single::rounded_ratio(Single::rounded_whole_of(n), 1000)
    }
}

impl Double {
    /// The encoding without its sign bit.
    pub open spec fn magnitude(self) -> int {
        self.bits as int % 0x8000_0000_0000_0000
    }

    /// Whether the sign bit is set.
    pub open spec fn negative(self) -> bool {
        self.bits >= 0x8000_0000_0000_0000
    }

    /// Whether the encoding stands for "not a number".
    pub open spec fn is_nan(self) -> bool {
        self.magnitude() > 0x7ff0_0000_0000_0000
    }

    /// An integer that orders the numbers as their values are ordered.
    /// Both zeros have rank 0.
    pub open spec fn rank(self) -> int {
        if self.negative() {
            -self.magnitude()
        } else {
            self.magnitude()
        }
    }

    /// `self <= other` as IEEE 754 defines it.
    pub open spec fn le_spec(self, other: Double) -> bool {
        !self.is_nan() && !other.is_nan() && self.rank() <= other.rank()
    }

    /// `self >= other` as IEEE 754 defines it.
    pub open spec fn ge_spec(self, other: Double) -> bool {
        other.le_spec(self)
    }

    /// `self == other` as IEEE 754 defines it: equal values, so that the two
    /// zeros are equal and "not a number" equals nothing.
    pub open spec fn eq_spec(self, other: Double) -> bool {
        !self.is_nan() && !other.is_nan() && self.rank() == other.rank()
    }

    /// The number with the encoding `bits`.
    pub fn from_bits(bits: u64) -> (d: Double)
        ensures
            d.bits == bits,
    {
        Double { bits }
    }

    /// The encoding of the number.
    pub fn to_bits(self) -> (bits: u64)
        ensures
            bits == self.bits,
    {
        self.bits
    }

    /// Whether the encoding stands for "not a number".
    pub fn is_nan_value(self) -> (b: bool)
        ensures
            b == self.is_nan(),
    {
        self.bits % 0x8000_0000_0000_0000 > 0x7ff0_0000_0000_0000
    }

    /// The rank as a machine integer.
    pub fn rank_value(self) -> (r: i128)
        ensures
            r == self.rank(),
    {
        let magnitude: u64 = self.bits % 0x8000_0000_0000_0000;
        if self.bits >= 0x8000_0000_0000_0000 {
            0i128 - magnitude as i128
        } else {
            magnitude as i128
        }
    }

    /// `self <= other`.
    pub fn le(self, other: Double) -> (b: bool)
        ensures
            b == self.le_spec(other),
    {
        !self.is_nan_value() && !other.is_nan_value() && self.rank_value() <= other.rank_value()
    }

    /// `self >= other`.
    pub fn ge(self, other: Double) -> (b: bool)
        ensures
            b == self.ge_spec(other),
    {
        other.le(self)
    }

    /// `self == other`, as numbers.
    pub fn eq_value(self, other: Double) -> (b: bool)
        ensures
            b == self.eq_spec(other),
    {
        !self.is_nan_value() && !other.is_nan_value() && self.rank_value() == other.rank_value()
    }

    /// The double-precision number that stands for the same number as
    /// `single`, with the same sign bit.
    ///
    /// A number with a full exponent field keeps it full: an infinity stays
    /// an infinity, and "not a number" stays one, its fraction moved up and
    /// marked quiet. A zero stays a zero. Every other number is written with
    /// a leading digit, its exponent field 896 higher, less one for each digit
    /// by which a subnormal fraction had to be lifted, and its fraction moved
    /// up by 29 digits.
    pub open spec fn widened(single: Single) -> Double {
        let sign: int = if single.negative() {
            0x8000_0000_0000_0000
        } else {
            0
        };
        let field = single.magnitude() / 0x80_0000;
        let fraction = single.magnitude() % 0x80_0000;
        let magnitude: int = if field == 255 {
            if fraction == 0 {
                0x7ff0_0000_0000_0000
            } else if fraction < 0x40_0000 {
                0x7ff8_0000_0000_0000 + fraction * 0x2000_0000
            } else {
                0x7ff0_0000_0000_0000 + fraction * 0x2000_0000
            }
        } else if field == 0 {
            if fraction == 0 {
                0
            } else {
                (897 - lift_of(fraction, 1)) * 0x10_0000_0000_0000 + (fraction * pow2(
                    lift_of(fraction, 1),
                ) - 0x80_0000) * 0x2000_0000
            }
        } else {
            (field + 896) * 0x10_0000_0000_0000 + fraction * 0x2000_0000
        };
        Double { bits: (sign + magnitude) as u64 }
    }

    /// The number that `single` stands for, in double precision.
    pub fn from_single(single: Single) -> (double: Double)
        ensures
            double == Double::widened(single),
    {
        let sign: u64 = if single.bits >= 0x8000_0000 {
            0x8000_0000_0000_0000
        } else {
            0
        };
        let magnitude: u32 = single.bits % 0x8000_0000;
        let field: u64 = (magnitude / 0x80_0000) as u64;
        let fraction: u64 = (magnitude % 0x80_0000) as u64;
        if field == 255 {
            if fraction == 0 {
                Double { bits: sign + 0x7ff0_0000_0000_0000 }
            } else if fraction < 0x40_0000 {
                Double { bits: sign + 0x7ff8_0000_0000_0000 + fraction * 0x2000_0000 }
            } else {
                Double { bits: sign + 0x7ff0_0000_0000_0000 + fraction * 0x2000_0000 }
            }
        } else if field == 0 {
            if fraction == 0 {
                Double { bits: sign }
            } else {
                let mut lifted: u64 = fraction * 2;
                let mut lift: u64 = 1;
                proof {
                    lemma2_to64();
                }
                while lifted < 0x80_0000
                    invariant
                        1 <= lift <= 23,
                        1 <= fraction < 0x80_0000,
                        lifted == fraction * pow2(lift as nat),
                        lifted < 0x100_0000,
                        lift_of(fraction as int, lift as nat) == lift_of(fraction as int, 1),
                    decreases 24 - lift,
                {
                    proof {
                        lemma_pow2_unfold((lift + 1) as nat);
                        assert(fraction * (2 * pow2(lift as nat)) == 2 * (fraction * pow2(
                            lift as nat,
                        ))) by (nonlinear_arith);
                        if lift == 23 {
                            lemma2_to64();
                            lemma_at_least(fraction as int, 1, 0x80_0000);
                        }
                    }
                    lifted = lifted * 2;
                    lift = lift + 1;
                }
                Double {
                    bits: sign + (897 - lift) * 0x10_0000_0000_0000 + (lifted - 0x80_0000)
                        * 0x2000_0000,
                }
            }
        } else {
            Double { bits: sign + (field + 896) * 0x10_0000_0000_0000 + fraction * 0x2000_0000 }
        }
    }

    /// The number nearest to `x` billionths, ties going to the even
    /// significand; the sign bit is set for a negative `x`.
    pub open spec fn nearest_to_billionths(x: int) -> Double {
        if x >= 0 {
            Double { bits: billionths_encoding(x) as u64 }
        } else {
            Double { bits: (billionths_encoding(-x) + 0x8000_0000_0000_0000) as u64 }
        }
    }

    /// The encoding of the number nearest to `n` billionths, for an `n` of
    /// at least two to the 52 units.
    fn large_billionths(n: u128) -> (bits: u64)
        requires
            4_503_599_627_370_496_000_000_000 <= n,
        ensures
            bits == billionths_encoding(n as int),
            bits < 0x7ff0_0000_0000_0000,
    {
        let mut d: u128 = 1_000_000_000;
        let mut j: u64 = 0;
        proof {
            lemma2_to64();
            lemma_pow2_128();
        }
        while n / d >= 0x20_0000_0000_0000
            invariant
                d == 1_000_000_000 * pow2(j as nat),
                d > 0,
                0x10_0000_0000_0000 * d <= n,
                j < 128,
            decreases 128 - j,
        {
            proof {
                lemma_quotient_bounds(n as int, d as int);
                lemma_at_least(n as int / d as int, 0x20_0000_0000_0000, d as int);
                lemma_pow2_unfold((j + 1) as nat);
                vstd::arithmetic::power2::lemma_pow2_pos((j + 1) as nat);
                lemma_exponent_below_128((j + 1) as nat);
            }
            d = d * 2;
            j = j + 1;
        }
        let quotient: u128 = n / d;
        let remainder: u128 = n % d;
        let rest: u128 = d - remainder;
        let up = remainder > rest || (remainder == rest && quotient % 2 == 1);
        let significand: u128 = if up {
            quotient + 1
        } else {
            quotient
        };
        proof {
            lemma_quotient_bounds(n as int, d as int);
            lemma_at_least(0x20_0000_0000_0000 - 1, quotient as int, d as int);
            crate::rounding::lemma_quotient_at_least(n as int, d as int, 0x10_0000_0000_0000);
            assert(significand == nearest_even(n as int, d as int));
            vstd::arithmetic::power2::lemma_pow2_adds(128, j as nat);
            let scale: nat = (128 + j) as nat;
            let wide: int = 0x1_0000_0000_0000_0000_0000_0000_0000_0000int;
            assert((0x20_0000_0000_0000 - 1) * d + d == 0x20_0000_0000_0000 * d)
                by (nonlinear_arith);
            assert(n < 0x20_0000_0000_0000 * d);
            assert(1_000_000_000 * pow2(scale) == 0x1_0000_0000_0000_0000_0000_0000_0000_0000int * d);
            assert(0x10_0000_0000_0000 * (0x1_0000_0000_0000_0000_0000_0000_0000_0000int * d) <= n * 0x1_0000_0000_0000_0000_0000_0000_0000_0000int);
            assert(n * 0x1_0000_0000_0000_0000_0000_0000_0000_0000int < 0x20_0000_0000_0000 * (0x1_0000_0000_0000_0000_0000_0000_0000_0000int * d));
            assert(2 * 0x10_0000_0000_0000 * (0x1_0000_0000_0000_0000_0000_0000_0000_0000int * d) == 0x20_0000_0000_0000 * (0x1_0000_0000_0000_0000_0000_0000_0000_0000int * d))
                by (nonlinear_arith);
            assert(in_range_at(n * wide, 1_000_000_000, scale, 0x10_0000_0000_0000));
            lemma_scale_at_unique(
                n * wide,
                1_000_000_000,
                0x10_0000_0000_0000,
                scale,
                scale_at(n * wide, 1_000_000_000, 0x10_0000_0000_0000),
            );
            lemma_nearest_even_scaled(n as int, d as int, wide);
        }
        (j + 1075) * 0x10_0000_0000_0000 + (significand - 0x10_0000_0000_0000) as u64
    }

    /// The encoding of the number nearest to `n` billionths, for an `n` above
    /// zero and below two to the 52 units.
    fn small_billionths(n: u128) -> (bits: u64)
        requires
            0 < n < 4_503_599_627_370_496_000_000_000,
        ensures
            bits == billionths_encoding(n as int),
            bits < 0x7ff0_0000_0000_0000,
    {
        let mut m: u128 = n;
        let mut k: u64 = 0;
        proof {
            lemma2_to64();
            lemma_pow2_128();
        }
        while m < 4_503_599_627_370_496_000_000_000
            invariant
                n > 0,
                m == n * pow2(k as nat),
                0 < m < 9_007_199_254_740_992_000_000_000,
                k < 128,
            decreases 128 - k,
        {
            proof {
                lemma_pow2_unfold((k + 1) as nat);
                vstd::arithmetic::power2::lemma_pow2_pos((k + 1) as nat);
                assert(n * (2 * pow2(k as nat)) == 2 * (n * pow2(k as nat))) by (nonlinear_arith);
                lemma_at_least(n as int, 1, pow2((k + 1) as nat) as int);
                lemma_exponent_below_128((k + 1) as nat);
            }
            m = m * 2;
            k = k + 1;
        }
        let quotient: u128 = m / 1_000_000_000;
        let remainder: u128 = m % 1_000_000_000;
        let rest: u128 = 1_000_000_000 - remainder;
        let up = remainder > rest || (remainder == rest && quotient % 2 == 1);
        let significand: u128 = if up {
            quotient + 1
        } else {
            quotient
        };
        proof {
            lemma_quotient_bounds(m as int, 1_000_000_000);
            assert(significand == nearest_even(m as int, 1_000_000_000));
            let scale: nat = (128 - k) as nat;
            let c = pow2(scale) as int;
            let wide: int = 0x1_0000_0000_0000_0000_0000_0000_0000_0000int;
            vstd::arithmetic::power2::lemma_pow2_pos(scale);
            vstd::arithmetic::power2::lemma_pow2_adds(k as nat, scale);
            assert(n * wide == m * c) by (nonlinear_arith)
                requires
                    m == n * pow2(k as nat),
                    wide == pow2(k as nat) * c,
            ;
            lemma_at_least(m as int, 4_503_599_627_370_496_000_000_000, c);
            lemma_at_least(9_007_199_254_740_992_000_000_000, m as int + 1, c);
            assert((m + 1) * c == m * c + c) by (nonlinear_arith);
            assert(m * c < 9_007_199_254_740_992_000_000_000 * c);
            assert(4_503_599_627_370_496_000_000_000 * c == 0x10_0000_0000_0000 * (1_000_000_000
                * c));
            assert(9_007_199_254_740_992_000_000_000 * c == 2 * 0x10_0000_0000_0000 * (
            1_000_000_000 * c)) by (nonlinear_arith);
            assert(in_range_at(n * wide, 1_000_000_000, scale, 0x10_0000_0000_0000));
            lemma_scale_at_unique(
                n * wide,
                1_000_000_000,
                0x10_0000_0000_0000,
                scale,
                scale_at(n * wide, 1_000_000_000, 0x10_0000_0000_0000),
            );
            lemma_nearest_even_scaled(m as int, 1_000_000_000, c);
            assert(c * m == m * c) by (nonlinear_arith);
        }
        (1075 - k) * 0x10_0000_0000_0000 + (significand - 0x10_0000_0000_0000) as u64
    }

    /// The encoding of the number nearest to `n` billionths.
    fn billionths_magnitude(n: u128) -> (bits: u64)
        requires
            n > 0,
        ensures
            bits == billionths_encoding(n as int),
            bits < 0x7ff0_0000_0000_0000,
    {
        if n >= 4_503_599_627_370_496_000_000_000 {
            Double::large_billionths(n)
        } else {
            Double::small_billionths(n)
        }
    }

    /// The number nearest to `x` billionths: a quantity given in billionths,
    /// such as a time in nanoseconds, in whole units.
    pub fn from_billionths(x: i128) -> (double: Double)
        ensures
            double == Double::nearest_to_billionths(x as int),
    {
        if x == 0 {
            Double { bits: 0 }
        } else if x > 0 {
            Double { bits: Double::billionths_magnitude(x as u128) }
        } else {
            let magnitude: u128 = (0 - (x + 1)) as u128 + 1;
            Double { bits: Double::billionths_magnitude(magnitude) + 0x8000_0000_0000_0000 }
        }
    }

    /// The number nearest to the integer `x`, ties going to the even
    /// significand; the sign bit is set for a negative integer.
    pub open spec fn nearest_to_int(x: int) -> Double {
        if x >= 0 {
            Double { bits: whole_encoding(x) as u64 }
        } else {
            Double { bits: (whole_encoding(-x) + 0x8000_0000_0000_0000) as u64 }
        }
    }

    /// The number one for `true`, and zero for `false`.
    pub open spec fn of_bool(flag: bool) -> Double {
        if flag {
            Double { bits: 0x3ff0_0000_0000_0000 }
        } else {
            Double { bits: 0 }
        }
    }

    /// The number nearest to the integer `n`.
    pub fn from_u64(n: u64) -> (double: Double)
        ensures
            double == Double::nearest_to_int(n as int),
            double.bits == whole_encoding(n as int),
            double.bits < 0x8000_0000_0000_0000,
    {
        if n == 0 {
            return Double { bits: 0 };
        }
        proof {
            lemma2_to64();
            lemma2_to64_rest();
        }
        let (significand, scale) = round_quotient(n, 1, DOUBLE_LOW, Ghost(52));
        Double {
            bits: (scale as u64 + 1011) * 0x10_0000_0000_0000 + (significand - DOUBLE_LOW) as u64,
        }
    }

    /// The number nearest to the integer `n`.
    pub fn from_u32(n: u32) -> (double: Double)
        ensures
            double == Double::nearest_to_int(n as int),
    {
        Double::from_u64(n as u64)
    }

    /// The number nearest to the integer `x`.
    pub fn from_i64(x: i64) -> (double: Double)
        ensures
            double == Double::nearest_to_int(x as int),
    {
        if x >= 0 {
            Double::from_u64(x as u64)
        } else {
            let magnitude: u64 = (0 - (x + 1)) as u64 + 1;
            let positive = Double::from_u64(magnitude);
            Double { bits: positive.bits + 0x8000_0000_0000_0000 }
        }
    }

    /// The number one for `true`, and zero for `false`.
    pub fn from_bool(flag: bool) -> (double: Double)
        ensures
            double == Double::of_bool(flag),
    {
        if flag {
            Double { bits: 0x3ff0_0000_0000_0000 }
        } else {
            Double { bits: 0 }
        }
    }
}

} // verus!
