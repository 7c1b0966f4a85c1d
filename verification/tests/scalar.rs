use driftwm::scalar::Scalar;

fn s(v: f64) -> Scalar {
    Scalar::from_bits(v.to_bits())
}

#[test]
fn comparisons_follow_doubles() {
    let values = [
        0.0,
        -0.0,
        1.0,
        -1.0,
        0.5,
        f64::MIN_POSITIVE,
        -f64::MIN_POSITIVE,
        5e-324,
        f64::INFINITY,
        f64::NEG_INFINITY,
        f64::NAN,
        -f64::NAN,
        f64::MAX,
        1920.25,
        -1e300,
    ];
    for &a in values.iter() {
        assert_eq!(s(a).is_nan(), a.is_nan());
        for &b in values.iter() {
            assert_eq!(s(a).less_than(s(b)), a < b, "{} < {}", a, b);
            assert_eq!(s(a).at_least(s(b)), a >= b, "{} >= {}", a, b);
            assert_eq!(s(a) == s(b), a == b, "{} == {}", a, b);
            assert_eq!(
                s(a).precedes(s(b)),
                a.total_cmp(&b) == std::cmp::Ordering::Less,
                "{} before {}",
                a,
                b
            );
        }
    }
}

#[test]
fn max_and_clamp_follow_doubles() {
    let values = [-3.5, -1.0, 0.0, 0.5, 2.0, 1e9, f64::NAN];
    for &a in values.iter() {
        for &b in values.iter() {
            let expected: f64 = a.max(b);
            let got = s(a).max(s(b));
            assert!(got.bits == expected.to_bits() || (got.is_nan() && expected.is_nan()));
        }
        assert_eq!(s(a).clamp(s(-1.0), s(2.0)).bits, a.clamp(-1.0, 2.0).to_bits());
    }
}

#[test]
fn constants_are_the_doubles_they_name() {
    assert_eq!(Scalar::zero().bits, 0.0f64.to_bits());
    assert_eq!(Scalar::one().bits, 1.0f64.to_bits());
    assert_eq!(Scalar::half().bits, 0.5f64.to_bits());
    assert!(f64::from_bits(Scalar::not_a_number().bits).is_nan());
}

#[test]
fn integers_become_their_doubles() {
    let values = [
        0,
        1,
        -1,
        2,
        3,
        25,
        -39,
        1920,
        i32::MAX,
        i32::MIN,
        i32::MAX - 1,
        1 << 30,
        -(1 << 30),
        123456789,
    ];
    for &n in values.iter() {
        assert_eq!(Scalar::from_i32(n).bits, (n as f64).to_bits(), "{}", n);
        assert_eq!(Scalar::from_i32(n).round_to_i32(), n);
    }
}

#[test]
fn rounding_follows_doubles() {
    let values = [
        0.0,
        -0.0,
        0.25,
        0.49999999999999994,
        0.5,
        -0.5,
        0.75,
        1.5,
        2.5,
        -2.5,
        -1.49,
        1e-300,
        5e-324,
        2147483646.5,
        2147483647.4,
        2147483647.5,
        -2147483648.5,
        -2147483649.0,
        4503599627370495.5,
        4503599627370496.0,
        9007199254740993.0,
        1e300,
        -1e300,
        f64::INFINITY,
        f64::NEG_INFINITY,
        f64::NAN,
    ];
    for &v in values.iter() {
        assert_eq!(s(v).round_to_i32(), v.round() as i32, "{}", v);
    }
}

#[test]
fn integers_compare_like_their_doubles() {
    for a in -40..40 {
        for b in -40..40 {
            assert_eq!(Scalar::from_i32(a).less_than(Scalar::from_i32(b)), a < b);
            assert_eq!(Scalar::from_i32(a) == Scalar::from_i32(b), a == b);
        }
    }
}
