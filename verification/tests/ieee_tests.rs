use simple_performance_dashboard::ieee::{Double, Single};

fn single(x: f32) -> Single {
    Single::from_bits(x.to_bits())
}

fn double(x: f64) -> Double {
    Double::from_bits(x.to_bits())
}

fn singles() -> Vec<f32> {
    vec![
        0.0,
        -0.0,
        1.0,
        -1.0,
        0.5,
        1.35,
        65.2,
        87.5,
        -10.0,
        100.0,
        f32::MIN_POSITIVE,
        -f32::MIN_POSITIVE,
        1.0e-45,
        -1.0e-45,
        f32::MAX,
        f32::MIN,
        f32::INFINITY,
        f32::NEG_INFINITY,
        f32::NAN,
        -f32::NAN,
        f32::EPSILON,
    ]
}

fn doubles() -> Vec<f64> {
    vec![
        0.0,
        -0.0,
        1.0,
        -1.0,
        10.0,
        15.0,
        20.0,
        35.5,
        -273.15,
        4.9e-324,
        -4.9e-324,
        f64::MIN_POSITIVE,
        f64::MAX,
        f64::MIN,
        f64::INFINITY,
        f64::NEG_INFINITY,
        f64::NAN,
        -f64::NAN,
    ]
}

#[test]
fn single_order_is_the_order_of_the_numbers() {
    for &a in &singles() {
        for &b in &singles() {
            assert_eq!(single(a).lt(single(b)), a < b, "{:?} < {:?}", a, b);
        }
        assert_eq!(single(a).is_nan_value(), a.is_nan());
    }
}

#[test]
fn double_order_is_the_order_of_the_numbers() {
    for &a in &doubles() {
        for &b in &doubles() {
            assert_eq!(double(a).le(double(b)), a <= b, "{:?} <= {:?}", a, b);
            assert_eq!(double(a).ge(double(b)), a >= b, "{:?} >= {:?}", a, b);
            assert_eq!(double(a).eq_value(double(b)), a == b, "{:?} == {:?}", a, b);
        }
        assert_eq!(double(a).is_nan_value(), a.is_nan());
    }
}

#[test]
fn ranks_are_signed_magnitudes() {
    assert_eq!(single(0.0).rank_value(), 0);
    assert_eq!(single(-0.0).rank_value(), 0);
    assert_eq!(single(1.0).rank_value(), 0x3f80_0000);
    assert_eq!(single(-1.0).rank_value(), -0x3f80_0000);
    assert_eq!(double(2.0).rank_value(), 0x4000_0000_0000_0000);
    assert_eq!(double(-2.0).rank_value(), -0x4000_0000_0000_0000);
}

#[test]
fn bits_round_trip() {
    assert_eq!(Single::from_bits(0x4248_0000).to_bits(), 0x4248_0000);
    assert_eq!(f32::from_bits(Single::from_bits(0x4248_0000).to_bits()), 50.0);
    assert_eq!(Double::from_bits(0x4049_0000_0000_0000).to_bits(), 0x4049_0000_0000_0000);
    assert_eq!(f64::from_bits(Double::from_bits(0x4049_0000_0000_0000).to_bits()), 50.0);
}

fn integers() -> Vec<u32> {
    let mut values: Vec<u32> = vec![
        0,
        1,
        2,
        3,
        45,
        100,
        255,
        1000,
        65_535,
        999_999,
        16_777_215,
        16_777_216,
        16_777_217,
        16_777_218,
        16_777_219,
        33_554_430,
        33_554_431,
        33_554_433,
        123_456_789,
        2_147_483_647,
        2_147_483_648,
        4_294_967_039,
        4_294_967_040,
        4_294_967_167,
        4_294_967_168,
        4_294_967_169,
        4_294_967_295,
    ];
    let mut x: u32 = 1;
    for _ in 0..2000 {
        x = x.wrapping_mul(1_664_525).wrapping_add(1_013_904_223);
        values.push(x);
        values.push(x >> 7);
        values.push(x >> 19);
    }
    values
}

#[test]
fn from_u32_is_the_conversion_of_the_machine() {
    for n in integers() {
        assert_eq!(Single::from_u32(n).to_bits(), (n as f32).to_bits(), "{}", n);
    }
}

#[test]
fn from_u32_is_exact_on_small_integers() {
    assert_eq!(Single::from_u32(0).to_bits(), 0);
    assert_eq!(Single::from_u32(1).to_bits(), 0x3f80_0000);
    assert_eq!(f32::from_bits(Single::from_u32(72).to_bits()), 72.0);
    assert_eq!(f32::from_bits(Single::from_u32(16_777_215).to_bits()), 16_777_215.0);
}

#[test]
fn from_u32_rounds_ties_to_even() {
    assert_eq!(f32::from_bits(Single::from_u32(16_777_217).to_bits()), 16_777_216.0);
    assert_eq!(f32::from_bits(Single::from_u32(16_777_219).to_bits()), 16_777_220.0);
    assert_eq!(f32::from_bits(Single::from_u32(4_294_967_295).to_bits()), 4_294_967_296.0);
}

#[test]
fn the_rounded_whole_is_the_integer_of_the_converted_number() {
    for n in integers() {
        assert_eq!(Single::rounded_whole_of(n), (n as f32) as u64, "{}", n);
    }
    assert_eq!(Single::rounded_whole_of(0), 0);
    assert_eq!(Single::rounded_whole_of(16_777_215), 16_777_215);
    assert_eq!(Single::rounded_whole_of(16_777_217), 16_777_216);
    assert_eq!(Single::rounded_whole_of(4_294_967_295), 4_294_967_296);
}

#[test]
fn from_thousandths_is_the_division_of_the_machine() {
    for n in integers() {
        let divided = (n as f32) / 1000.0;
        assert_eq!(Single::from_thousandths(n).to_bits(), divided.to_bits(), "{}", n);
    }
    assert_eq!(f32::from_bits(Single::from_thousandths(250_000).to_bits()), 250.0);
    assert_eq!(f32::from_bits(Single::from_thousandths(1_500).to_bits()), 1.5);
    assert_eq!(f32::from_bits(Single::from_thousandths(1).to_bits()), 0.001);
    assert_eq!(Single::from_thousandths(0).to_bits(), 0);
}

#[test]
fn from_thousandths_is_the_nearest_quotient_below_two_to_the_24() {
    for n in integers() {
        if n < 16_777_216 {
            let nearest = (n as f64 / 1000.0) as f32;
            assert_eq!(Single::from_thousandths(n).to_bits(), nearest.to_bits(), "{}", n);
        }
    }
}

fn wide_integers() -> Vec<u64> {
    let mut values: Vec<u64> = vec![
        0,
        1,
        2,
        3,
        1000,
        (1 << 53) - 1,
        1 << 53,
        (1 << 53) + 1,
        (1 << 53) + 2,
        (1 << 53) + 3,
        (1 << 54) - 1,
        (1 << 54) + 2,
        (1 << 54) + 6,
        (1 << 63) - 1,
        1 << 63,
        (1 << 63) + 1024,
        (1 << 63) + 1025,
        u64::MAX - 2048,
        u64::MAX - 1024,
        u64::MAX - 1023,
        u64::MAX,
    ];
    let mut x: u64 = 88_172_645_463_325_252;
    for _ in 0..3000 {
        x ^= x << 13;
        x ^= x >> 7;
        x ^= x << 17;
        values.push(x);
        values.push(x >> 9);
        values.push(x >> 11);
        values.push(x >> 40);
    }
    values
}

#[test]
fn doubles_of_integers_are_the_conversions_of_the_machine() {
    for n in wide_integers() {
        assert_eq!(Double::from_u64(n).to_bits(), (n as f64).to_bits(), "{}", n);
        let signed = n as i64;
        assert_eq!(Double::from_i64(signed).to_bits(), (signed as f64).to_bits(), "{}", signed);
        let small = n as u32;
        assert_eq!(Double::from_u32(small).to_bits(), (small as f64).to_bits(), "{}", small);
    }
    assert_eq!(Double::from_i64(i64::MIN).to_bits(), (i64::MIN as f64).to_bits());
    assert_eq!(Double::from_i64(i64::MAX).to_bits(), (i64::MAX as f64).to_bits());
    assert_eq!(Double::from_i64(-1).to_bits(), (-1.0f64).to_bits());
    assert_eq!(Double::from_i64(0).to_bits(), 0);
    assert_eq!(f64::from_bits(Double::from_i64(-30).to_bits()), -30.0);
    assert_eq!(f64::from_bits(Double::from_u64(10).to_bits()), 10.0);
}

#[test]
fn doubles_of_flags_are_one_and_zero() {
    assert_eq!(f64::from_bits(Double::from_bool(true).to_bits()), 1.0);
    assert_eq!(Double::from_bool(false).to_bits(), 0);
}

#[test]
fn widening_keeps_the_number() {
    let mut values = singles();
    values.extend([1.0e-38, 1.0e-39, 1.0e-40, 7.0e-45, 1.1754942e-38, 3.4e38, 16_777_217.0, 0.1]);
    let mut x: u32 = 7;
    for _ in 0..4000 {
        x = x.wrapping_mul(1_664_525).wrapping_add(1_013_904_223);
        values.push(f32::from_bits(x));
        values.push(f32::from_bits(x >> 9));
        values.push(f32::from_bits((x >> 9) | 0x8000_0000));
    }
    for value in values {
        let wide = f64::from_bits(Double::from_single(single(value)).to_bits());
        if value.is_nan() {
            assert!(wide.is_nan());
            assert_eq!(wide.is_sign_negative(), value.is_sign_negative());
        } else {
            assert_eq!(wide.to_bits(), (value as f64).to_bits(), "{:?}", value);
        }
    }
    assert_eq!(Double::from_single(single(f32::NAN)).to_bits(), (f32::NAN as f64).to_bits());
    assert_eq!(Double::from_single(single(1.0)).to_bits(), 0x3ff0_0000_0000_0000);
}

#[test]
fn doubles_of_billionths_are_the_nearest_quotients() {
    let mut values: Vec<i128> = vec![
        0,
        1,
        2,
        999_999_999,
        1_000_000_000,
        1_000_000_001,
        1_500_000_000,
        4_503_599_627_370_495,
        4_503_599_627_370_496,
        9_007_199_254_740_991,
        86_400_000_000_000,
        1_672_531_200_000_000_000,
    ];
    for n in wide_integers() {
        values.push((n >> 11) as i128);
        values.push((n >> 20) as i128);
        values.push((n >> 40) as i128);
    }
    for x in values {
        let expected = (x as f64) / 1e9;
        assert_eq!(Double::from_billionths(x).to_bits(), expected.to_bits(), "{}", x);
        let negative = (-x as f64) / 1e9;
        if x != 0 {
            assert_eq!(Double::from_billionths(-x).to_bits(), negative.to_bits(), "-{}", x);
        }
    }
    assert_eq!(f64::from_bits(Double::from_billionths(1_500_000_000).to_bits()), 1.5);
    assert_eq!(f64::from_bits(Double::from_billionths(-250_000_000).to_bits()), -0.25);
    assert_eq!(f64::from_bits(Double::from_billionths(1).to_bits()), 1e-9);
}

#[test]
fn doubles_of_many_billionths_round_once() {
    let large: Vec<(i128, f64)> = vec![
        (9_007_199_254_740_993_000_000_000, 9_007_199_254_740_992.0),
        (9_007_199_254_740_995_000_000_000, 9_007_199_254_740_996.0),
        (9_007_199_254_740_993_000_000_001, 9_007_199_254_740_994.0),
        (i128::MAX, 1.7014118346046923e29),
        (4_611_686_018_427_387_903_999_999_999, 4.611686018427388e18),
    ];
    for (x, expected) in large {
        assert_eq!(f64::from_bits(Double::from_billionths(x).to_bits()), expected, "{}", x);
        assert_eq!(f64::from_bits(Double::from_billionths(-x).to_bits()), -expected, "-{}", x);
    }
    assert_eq!(
        f64::from_bits(Double::from_billionths(i128::MIN).to_bits()),
        -1.7014118346046923e29
    );
}
