use organism_core::binary64::{
    Binary64, HUNDREDTH_BITS, HUNDRED_BITS, INFINITY_BITS, ONE_BITS, SIGN_BIT, TENTH_BITS,
    TEN_BITS, TEN_THOUSAND_BITS, THOUSAND_BITS, THREE_BITS, TWO_BITS, ZERO_BITS,
};

fn b(x: f64) -> Binary64 {
    Binary64::from_bits(x.to_bits())
}

fn samples() -> Vec<f64> {
    vec![
        0.0,
        -0.0,
        1.0,
        -1.0,
        0.5,
        -0.5,
        2.0,
        100.0,
        -100.0,
        1e-310,
        -1e-310,
        5e-324,
        -5e-324,
        1e308,
        -1e308,
        f64::MAX,
        f64::MIN,
        f64::MIN_POSITIVE,
        f64::INFINITY,
        f64::NEG_INFINITY,
        f64::NAN,
        -f64::NAN,
        0.01,
        0.1,
        10000.0,
        10000.000000000002,
        0.9999999999999999,
    ]
}

#[test]
fn constants_encode_their_values() {
    assert_eq!(ZERO_BITS, 0.0f64.to_bits());
    assert_eq!(HUNDREDTH_BITS, 0.01f64.to_bits());
    assert_eq!(TENTH_BITS, 0.1f64.to_bits());
    assert_eq!(ONE_BITS, 1.0f64.to_bits());
    assert_eq!(TWO_BITS, 2.0f64.to_bits());
    assert_eq!(THREE_BITS, 3.0f64.to_bits());
    assert_eq!(TEN_BITS, 10.0f64.to_bits());
    assert_eq!(HUNDRED_BITS, 100.0f64.to_bits());
    assert_eq!(THOUSAND_BITS, 1000.0f64.to_bits());
    assert_eq!(TEN_THOUSAND_BITS, 10000.0f64.to_bits());
    assert_eq!(INFINITY_BITS, f64::INFINITY.to_bits());
    assert_eq!(SIGN_BIT, (-0.0f64).to_bits());
}

#[test]
fn bits_round_trip() {
    for x in samples() {
        assert_eq!(b(x).to_bits(), x.to_bits());
        assert_eq!(b(x).bits, x.to_bits());
    }
}

#[test]
fn classification_agrees_with_the_hardware() {
    for x in samples() {
        assert_eq!(b(x).is_nan(), x.is_nan(), "is_nan of {x}");
        assert_eq!(b(x).is_negative(), x.is_sign_negative(), "is_negative of {x}");
    }
}

#[test]
fn ordering_agrees_with_the_hardware() {
    for x in samples() {
        for y in samples() {
            assert_eq!(b(x).lt(b(y)), x < y, "{x} < {y}");
            assert_eq!(b(x).le(b(y)), x <= y, "{x} <= {y}");
        }
    }
}

#[test]
fn zeros_compare_equal_and_nan_compares_with_nothing() {
    assert!(b(0.0).le(b(-0.0)));
    assert!(b(-0.0).le(b(0.0)));
    assert!(!b(0.0).lt(b(-0.0)));
    assert!(!b(-0.0).lt(b(0.0)));
    assert!(!b(f64::NAN).le(b(f64::NAN)));
    assert!(!b(f64::NAN).lt(b(1.0)));
    assert!(!b(1.0).lt(b(f64::NAN)));
}

#[test]
fn max_and_min_agree_with_the_hardware() {
    for x in samples() {
        for y in samples() {
            let expected_max = x.max(y);
            let expected_min = x.min(y);
            let got_max = f64::from_bits(b(x).max(b(y)).to_bits());
            let got_min = f64::from_bits(b(x).min(b(y)).to_bits());
            if expected_max.is_nan() {
                assert!(got_max.is_nan(), "max({x}, {y})");
            } else {
                assert_eq!(got_max, expected_max, "max({x}, {y})");
            }
            if expected_min.is_nan() {
                assert!(got_min.is_nan(), "min({x}, {y})");
            } else {
                assert_eq!(got_min, expected_min, "min({x}, {y})");
            }
        }
    }
}

#[test]
fn max_and_min_ignore_a_nan() {
    assert_eq!(b(f64::NAN).max(b(1.0)), b(1.0));
    assert_eq!(b(1.0).max(b(f64::NAN)), b(1.0));
    assert_eq!(b(f64::NAN).min(b(1.0)), b(1.0));
    assert_eq!(b(1.0).min(b(f64::NAN)), b(1.0));
    assert!(b(f64::NAN).max(b(f64::NAN)).is_nan());
}

#[test]
fn clamp_lands_in_the_interval() {
    let low = b(0.0);
    let high = b(1.0);
    for x in samples() {
        let clamped = b(x).clamp(low, high);
        assert!(low.le(clamped) && clamped.le(high), "clamp of {x}");
        if x >= 0.0 && x <= 1.0 {
            assert_eq!(clamped, b(x));
        }
    }
    assert_eq!(b(f64::NAN).clamp(low, high), low);
    assert_eq!(b(7.5).clamp(low, high), high);
    assert_eq!(b(-7.5).clamp(low, high), low);
    assert_eq!(b(0.25).clamp(low, high), b(0.25));
}

#[test]
fn equality_is_equality_of_encodings() {
    assert_eq!(b(1.5), b(1.5));
    assert_ne!(b(0.0), b(-0.0));
    assert_eq!(b(f64::NAN), b(f64::NAN));
}

#[test]
fn arithmetic_agrees_with_the_hardware() {
    for x in samples() {
        for y in samples() {
            let cases = [
                ("+", f64::from_bits(b(x).plus(b(y)).to_bits()), x + y),
                ("-", f64::from_bits(b(x).minus(b(y)).to_bits()), x - y),
                ("*", f64::from_bits(b(x).times(b(y)).to_bits()), x * y),
                ("/", f64::from_bits(b(x).over(b(y)).to_bits()), x / y),
            ];
            for (name, got, expected) in cases {
                if expected.is_nan() {
                    assert!(got.is_nan(), "{x} {name} {y}");
                } else {
                    assert_eq!(got.to_bits(), expected.to_bits(), "{x} {name} {y}");
                }
            }
        }
    }
}

#[test]
fn arithmetic_on_chosen_values() {
    assert_eq!(b(1.5).plus(b(2.25)), b(3.75));
    assert_eq!(b(1.5).minus(b(2.25)), b(-0.75));
    assert_eq!(b(1.5).times(b(2.0)), b(3.0));
    assert_eq!(b(1.0).over(b(4.0)), b(0.25));
    assert_eq!(b(0.1).plus(b(0.2)), b(0.30000000000000004));
    assert_eq!(b(1.0).over(b(3.0)), b(0.3333333333333333));
    assert_eq!(b(1.0).over(b(0.0)), b(f64::INFINITY));
    assert_eq!(b(-1.0).over(b(0.0)), b(f64::NEG_INFINITY));
    assert!(b(0.0).over(b(0.0)).is_nan());
    assert_eq!(b(f64::MAX).times(b(2.0)), b(f64::INFINITY));
}

#[test]
fn conversion_from_integers_agrees_with_the_hardware() {
    let integers = [
        0u64,
        1,
        2,
        100,
        250,
        1 << 52,
        (1 << 53) - 1,
        1 << 53,
        (1 << 53) + 1,
        (1 << 53) + 3,
        u64::MAX - 1024,
        u64::MAX,
        0x8000_0000_0000_0400,
        0x8000_0000_0000_0401,
        12345678901234567890,
    ];
    for n in integers {
        assert_eq!(Binary64::from_u64(n).to_bits(), (n as f64).to_bits(), "{n}");
    }
}
