//! Rounding a quotient of integers to a given number of binary digits, as
//! floating-point conversions do: to the nearest, ties to the even digit.

use vstd::arithmetic::div_mod::{lemma_fundamental_div_mod, lemma_mod_bound};
use vstd::arithmetic::power2::{
    lemma2_to64, lemma_pow2_adds, lemma_pow2_strictly_increases, lemma_pow2_unfold, pow2,
};
use vstd::prelude::*;

verus! {

/// Two to the power 64, the factor by which numerators are scaled up before
/// they are divided.
pub const TWO_64: u128 = 0x1_0000_0000_0000_0000;

/// The integer nearest to `n / d`; of two equally near, the even one.
pub open spec fn nearest_even(n: int, d: int) -> int
    recommends
        n >= 0,
        d > 0,
{
    let q = n / d;
    let r = n % d;
    if 2 * r < d || (2 * r == d && q % 2 == 0) {
        q
    } else {
        q + 1
    }
}

/// Whether the quotient of `num` times two to the 64 by `den` times two to
/// the `scale` is at least `low` and below twice `low`. For `low` a power of
/// two, the quotient then has one binary digit more than `low` has zeros.
pub open spec fn in_range(num: int, den: int, scale: nat, low: int) -> bool {
    low * (den * pow2(scale)) <= num * 0x1_0000_0000_0000_0000 < 2 * low * (den * pow2(scale))
}

/// The scale at which `num / den` lies in the range of `low`.
pub open spec fn scale_of(num: int, den: int, low: int) -> nat {
    choose|scale: nat| in_range(num, den, scale, low)
}

/// The significand of `num / den` in the range of `low`: the quotient at its
/// scale, rounded to the nearest integer. It is at least `low` and at most
/// twice `low`; the number it stands for is the significand times two to the
/// power of the scale less 64.
pub open spec fn significand_of(num: int, den: int, low: int) -> int {
    nearest_even(num * 0x1_0000_0000_0000_0000, den * pow2(scale_of(num, den, low)))
}

/// A quotient lies in the range of `low` at one scale only.
pub proof fn lemma_scale_is_unique(num: int, den: int, low: int, a: nat, b: nat)
    requires
        den > 0,
        low > 0,
        in_range(num, den, a, low),
        in_range(num, den, b, low),
    ensures
        a == b,
{
    if a < b {
        lemma_scale_gap(den, low, a, b);
    } else if b < a {
        lemma_scale_gap(den, low, b, a);
    }
}

/// At a higher scale the lower bound of a range is at or above the upper
/// bound at a lower scale.
pub proof fn lemma_scale_gap(den: int, low: int, lower: nat, higher: nat)
    requires
        den > 0,
        low > 0,
        lower < higher,
    ensures
        2 * low * (den * pow2(lower)) <= low * (den * pow2(higher)),
{
    lemma_pow2_unfold(lower + 1);
    if lower + 1 < higher {
        lemma_pow2_strictly_increases(lower + 1, higher);
    }
    assert(2 * pow2(lower) <= pow2(higher));
    assert(2 * low * (den * pow2(lower)) <= low * (den * pow2(higher))) by (nonlinear_arith)
        requires
            den > 0,
            low > 0,
            2 * pow2(lower) <= pow2(higher),
    ;
}

/// The quotient of a division lies within one divisor of the dividend.
pub proof fn lemma_quotient_bounds(n: int, d: int)
    requires
        n >= 0,
        d > 0,
    ensures
        (n / d) * d <= n < (n / d) * d + d,
        n == (n / d) * d + n % d,
        0 <= n % d < d,
{
    lemma_fundamental_div_mod(n, d);
    lemma_mod_bound(n, d);
    assert(d * (n / d) == (n / d) * d) by (nonlinear_arith);
}

/// A larger factor gives a larger product with a positive number.
pub proof fn lemma_at_least(a: int, b: int, c: int)
    by (nonlinear_arith)
    requires
        a >= b,
        c > 0,
    ensures
        a * c >= b * c,
{
}

/// A dividend of at least `k` divisors has a quotient of at least `k`.
pub proof fn lemma_quotient_at_least(n: int, d: int, k: int)
    requires
        d > 0,
        k >= 0,
        k * d <= n,
    ensures
        n / d >= k,
{
    lemma_quotient_bounds(n, d);
    if n / d < k {
        lemma_at_least(k, n / d + 1, d);
        assert((n / d + 1) * d == (n / d) * d + d) by (nonlinear_arith);
    }
}

/// Every positive quotient whose scaled numerator reaches the range of `low`
/// at scale zero lies in that range at some scale, which `scale_of` names.
pub proof fn lemma_scale_exists(num: int, den: int, low: int)
    requires
        num > 0,
        den > 0,
        low > 0,
        low * den <= num * 0x1_0000_0000_0000_0000,
    ensures
        in_range(num, den, scale_of(num, den, low), low),
{
    lemma2_to64();
    assert(den * pow2(0) == den) by (nonlinear_arith)
        requires
            pow2(0) == 1,
    ;
    lemma_scale_search(num, den, low, 0);
}

/// From a scale at which the lower bound holds, some scale at or above it
/// holds the quotient in range.
proof fn lemma_scale_search(num: int, den: int, low: int, scale: nat)
    requires
        num > 0,
        den > 0,
        low > 0,
        low * (den * pow2(scale)) <= num * 0x1_0000_0000_0000_0000,
    ensures
        exists|found: nat| in_range(num, den, found, low),
    decreases num * 0x1_0000_0000_0000_0000 - low * (den * pow2(scale)),
{
    vstd::arithmetic::power2::lemma_pow2_pos(scale);
    if num * 0x1_0000_0000_0000_0000 < 2 * low * (den * pow2(scale)) {
        assert(in_range(num, den, scale, low));
    } else {
        lemma_pow2_unfold(scale + 1);
        assert(low * (den * pow2(scale + 1)) == 2 * (low * (den * pow2(scale))))
            by (nonlinear_arith)
            requires
                pow2(scale + 1) == 2 * pow2(scale),
        ;
        assert(2 * low * (den * pow2(scale)) == 2 * (low * (den * pow2(scale))))
            by (nonlinear_arith);
        assert(low * (den * pow2(scale)) > 0) by (nonlinear_arith)
            requires
                low > 0,
                den > 0,
                pow2(scale) > 0,
        ;
        lemma_scale_search(num, den, low, scale + 1);
    }
}

/// Rounding to the nearest integer keeps the order of the dividends.
pub proof fn lemma_nearest_even_monotone(x: int, y: int, d: int)
    requires
        0 <= x <= y,
        d > 0,
    ensures
        nearest_even(x, d) <= nearest_even(y, d),
{
    lemma_quotient_bounds(x, d);
    lemma_quotient_bounds(y, d);
    if x / d > y / d {
        lemma_at_least(x / d, y / d + 1, d);
        assert((y / d + 1) * d == (y / d) * d + d) by (nonlinear_arith);
    }
    if x / d < y / d {
        assert(nearest_even(x, d) <= x / d + 1);
    } else {
        assert(x % d <= y % d);
    }
}

/// A quotient in the range of `low` rounds to a significand from `low` to
/// twice `low`.
pub proof fn lemma_nearest_even_in_range(n: int, d: int, low: int)
    requires
        d > 0,
        low > 0,
        low * d <= n < 2 * low * d,
    ensures
        low <= nearest_even(n, d) <= 2 * low,
{
    lemma_quotient_bounds(n, d);
    lemma_quotient_at_least(n, d, low);
    if n / d >= 2 * low {
        lemma_at_least(n / d, 2 * low, d);
    }
}

/// Of two quotients with the same denominator, the larger has the scale that
/// is not lower.
pub proof fn lemma_scale_monotone(smaller: int, larger: int, den: int, low: int, a: nat, b: nat)
    requires
        den > 0,
        low > 0,
        smaller <= larger,
        in_range(smaller, den, a, low),
        in_range(larger, den, b, low),
    ensures
        a <= b,
{
    if b < a {
        lemma_scale_gap(den, low, b, a);
    }
}

/// The scale of a quotient whose numerator is below two to the 64, in the
/// range of two to the `low_digits`, is below 128 less those digits.
pub proof fn lemma_scale_bound(num: int, den: int, low_digits: nat, scale: nat)
    requires
        0 < num < 0x1_0000_0000_0000_0000,
        den > 0,
        in_range(num, den, scale, pow2(low_digits) as int),
    ensures
        scale + low_digits < 128,
{
    let low = pow2(low_digits) as int;
    lemma_pow2_adds(low_digits, scale);
    vstd::arithmetic::power2::lemma_pow2_pos(scale);
    vstd::arithmetic::power2::lemma_pow2_pos(low_digits);
    lemma_at_least(den, 1, pow2(scale) as int);
    lemma_at_least(den * pow2(scale), pow2(scale) as int, low);
    assert(pow2(scale) * low == pow2(low_digits) * pow2(scale)) by (nonlinear_arith)
        requires
            low == pow2(low_digits),
    ;
    assert((den * pow2(scale)) * low == low * (den * pow2(scale))) by (nonlinear_arith);
    assert(num * 0x1_0000_0000_0000_0000 < 0x1_0000_0000_0000_0000_0000_0000_0000_0000);
    lemma_exponent_below_128(low_digits + scale);
}

/// Two to the 128, written out.
pub proof fn lemma_pow2_128()
    ensures
        pow2(128) == 0x1_0000_0000_0000_0000_0000_0000_0000_0000,
{
    lemma2_to64();
    lemma_pow2_adds(64, 64);
    assert(pow2(64) == 0x1_0000_0000_0000_0000);
    assert(pow2(128) == pow2(64) * pow2(64));
}

/// A power of two below two to the 128 has an exponent below 128.
pub proof fn lemma_exponent_below_128(e: nat)
    requires
        pow2(e) < 0x1_0000_0000_0000_0000_0000_0000_0000_0000,
    ensures
        e < 128,
{
    lemma_pow2_128();
    if e > 128 {
        lemma_pow2_strictly_increases(128, e);
    }
}

/// Rounds `num / den` to the binary digits of `low`, which is two to the
/// `low_digits`: returns the significand and the scale.
pub(crate) fn round_quotient(num: u64, den: u32, low: u128, Ghost(low_digits): Ghost<nat>) -> (rounded: (
    u128,
    u32,
))
    requires
        num > 0,
        den > 0,
        low == pow2(low_digits),
        low_digits <= 52,
        low * den <= 0x1_0000_0000_0000_0000,
    ensures
        rounded.1 == scale_of(num as int, den as int, low as int),
        rounded.0 == significand_of(num as int, den as int, low as int),
        in_range(num as int, den as int, rounded.1 as nat, low as int),
        low <= rounded.0 <= 2 * low,
        rounded.1 + low_digits < 128,
{
    let n: u128 = (num as u128) * TWO_64;
    let mut scaled_den: u128 = den as u128;
    let mut scale: u32 = 0;
    proof {
        lemma2_to64();
        vstd::arithmetic::power2::lemma2_to64_rest();
        lemma_at_least(num as int, 1, 0x1_0000_0000_0000_0000);
    }
    while n / scaled_den >= 2 * low
        invariant
            n == num * 0x1_0000_0000_0000_0000,
            num > 0,
            den > 0,
            low == pow2(low_digits),
            low_digits <= 52,
            0 < low <= 0x10_0000_0000_0000,
            scale < 128,
            scaled_den == den * pow2(scale as nat),
            scaled_den > 0,
            low * scaled_den <= n,
        decreases 128 - scale,
    {
        proof {
            lemma_quotient_bounds(n as int, scaled_den as int);
            lemma_at_least(n as int / scaled_den as int, 2 * low as int, scaled_den as int);
            lemma_pow2_unfold((scale + 1) as nat);
            assert(den * (2 * pow2(scale as nat)) == 2 * (den * pow2(scale as nat)))
                by (nonlinear_arith);
            assert(low * (2 * scaled_den) == 2 * low * scaled_den) by (nonlinear_arith);
            lemma_at_least(den as int, 1, pow2((scale + 1) as nat) as int);
            lemma_at_least(low as int, 1, 2 * scaled_den as int);
            lemma_exponent_below_128((scale + 1) as nat);
        }
        scaled_den = scaled_den * 2;
        scale = scale + 1;
    }
    let quotient: u128 = n / scaled_den;
    let remainder: u128 = n % scaled_den;
    proof {
        lemma_quotient_bounds(n as int, scaled_den as int);
        lemma_at_least(2 * low as int - 1, quotient as int, scaled_den as int);
        assert((2 * low - 1) * scaled_den + scaled_den == 2 * low * scaled_den)
            by (nonlinear_arith);
        lemma_quotient_at_least(n as int, scaled_den as int, low as int);
        assert(in_range(num as int, den as int, scale as nat, low as int));
        let chosen = scale_of(num as int, den as int, low as int);
        lemma_scale_is_unique(num as int, den as int, low as int, scale as nat, chosen);
        lemma_pow2_adds(low_digits, scale as nat);
        vstd::arithmetic::power2::lemma_pow2_pos(scale as nat);
        lemma_at_least(den as int, 1, pow2(scale as nat) as int);
        lemma_at_least(scaled_den as int, pow2(scale as nat) as int, low as int);
        assert(pow2(low_digits) * pow2(scale as nat) == pow2(scale as nat) * low)
            by (nonlinear_arith)
            requires
                low == pow2(low_digits),
        ;
        assert(scaled_den * low == low * scaled_den) by (nonlinear_arith);
        lemma_exponent_below_128(low_digits + scale as nat);
    }
    let rest: u128 = scaled_den - remainder;
    let up = remainder > rest || (remainder == rest && quotient % 2 == 1);
    let significand: u128 = if up {
        quotient + 1
    } else {
        quotient
    };
    assert(significand == nearest_even(n as int, scaled_den as int));
    (significand, scale)
}

/// Whether the quotient of `n` by `den` times two to the `scale` is at least
/// `low` and below twice `low`.
pub open spec fn in_range_at(n: int, den: int, scale: nat, low: int) -> bool {
    low * (den * pow2(scale)) <= n < 2 * low * (den * pow2(scale))
}

/// The scale at which `n / den` lies in the range of `low`.
pub open spec fn scale_at(n: int, den: int, low: int) -> nat {
    choose|scale: nat| in_range_at(n, den, scale, low)
}

/// The significand of `n / den` in the range of `low`: the quotient at its
/// scale, rounded to the nearest integer, from `low` to twice `low`.
pub open spec fn significand_at(n: int, den: int, low: int) -> int {
    nearest_even(n, den * pow2(scale_at(n, den, low)))
}

/// A quotient lies in the range of `low` at one scale only.
pub proof fn lemma_scale_at_unique(n: int, den: int, low: int, a: nat, b: nat)
    requires
        den > 0,
        low > 0,
        in_range_at(n, den, a, low),
        in_range_at(n, den, b, low),
    ensures
        a == b,
{
    if a < b {
        lemma_scale_gap(den, low, a, b);
    } else if b < a {
        lemma_scale_gap(den, low, b, a);
    }
}

/// Every quotient that reaches the range of `low` at scale zero lies in that
/// range at some scale, which `scale_at` names.
pub proof fn lemma_scale_at_exists(n: int, den: int, low: int)
    requires
        den > 0,
        low > 0,
        low * den <= n,
    ensures
        in_range_at(n, den, scale_at(n, den, low), low),
{
    lemma2_to64();
    assert(den * pow2(0) == den) by (nonlinear_arith)
        requires
            pow2(0) == 1,
    ;
    lemma_scale_at_search(n, den, low, 0);
}

/// From a scale at which the lower bound holds, some scale at or above it
/// holds the quotient in range.
proof fn lemma_scale_at_search(n: int, den: int, low: int, scale: nat)
    requires
        den > 0,
        low > 0,
        low * (den * pow2(scale)) <= n,
    ensures
        exists|found: nat| in_range_at(n, den, found, low),
    decreases n - low * (den * pow2(scale)),
{
    vstd::arithmetic::power2::lemma_pow2_pos(scale);
    if n < 2 * low * (den * pow2(scale)) {
        assert(in_range_at(n, den, scale, low));
    } else {
        lemma_pow2_unfold(scale + 1);
        assert(low * (den * pow2(scale + 1)) == 2 * (low * (den * pow2(scale))))
            by (nonlinear_arith)
            requires
                pow2(scale + 1) == 2 * pow2(scale),
        ;
        assert(2 * low * (den * pow2(scale)) == 2 * (low * (den * pow2(scale))))
            by (nonlinear_arith);
        assert(low * (den * pow2(scale)) > 0) by (nonlinear_arith)
            requires
                low > 0,
                den > 0,
                pow2(scale) > 0,
        ;
        lemma_scale_at_search(n, den, low, scale + 1);
    }
}

/// Of two quotients with the same denominator, the larger has the scale that
/// is not lower.
pub proof fn lemma_scale_at_monotone(smaller: int, larger: int, den: int, low: int, a: nat, b: nat)
    requires
        den > 0,
        low > 0,
        smaller <= larger,
        in_range_at(smaller, den, a, low),
        in_range_at(larger, den, b, low),
    ensures
        a <= b,
{
    if b < a {
        lemma_scale_gap(den, low, b, a);
    }
}

/// Rounding a quotient does not depend on a factor that dividend and divisor
/// share.
pub proof fn lemma_nearest_even_scaled(a: int, b: int, c: int)
    requires
        a >= 0,
        b > 0,
        c > 0,
    ensures
        nearest_even(c * a, c * b) == nearest_even(a, b),
{
    vstd::arithmetic::div_mod::lemma_div_multiples_vanish_quotient(c, a, b);
    vstd::arithmetic::div_mod::lemma_truncate_middle(a, c, b);
    lemma_quotient_bounds(a, b);
    let r = a % b;
    assert(2 * (c * r) < c * b <==> 2 * r < b) by (nonlinear_arith)
        requires
            c > 0,
    ;
    assert(2 * (c * r) == c * b <==> 2 * r == b) by (nonlinear_arith)
        requires
            c > 0,
    ;
}

} // verus!
