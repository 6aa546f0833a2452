use spi::reals::Real;

fn float(value: f64) -> Real {
    Real::from_bits(value.to_bits())
}

fn value(r: Real) -> f64 {
    f64::from_bits(r.to_bits())
}

#[test]
fn bits_round_trip() {
    assert_eq!(Real::from_bits(0x4009_21fb_5444_2d18).to_bits(), 0x4009_21fb_5444_2d18);
    assert_eq!(value(float(3.5)), 3.5);
}

#[test]
fn arithmetic_agrees_with_the_machine() {
    let samples = [
        0.0, -0.0, 1.0, -1.0, 0.1, 0.2, 3.14, 2.5, 1e300, -1e300, 1e-320, 123456789.125,
        f64::MAX, f64::MIN_POSITIVE, f64::INFINITY, f64::NEG_INFINITY,
    ];
    for a in samples {
        for b in samples {
            let sum = a + b;
            if !sum.is_nan() {
                assert_eq!(float(a).plus(float(b)), float(sum), "{} + {}", a, b);
            } else {
                assert!(value(float(a).plus(float(b))).is_nan());
            }
            let difference = a - b;
            if !difference.is_nan() {
                assert_eq!(float(a).minus(float(b)), float(difference), "{} - {}", a, b);
            } else {
                assert!(value(float(a).minus(float(b))).is_nan());
            }
            let product = a * b;
            if !product.is_nan() {
                assert_eq!(float(a).times(float(b)), float(product), "{} * {}", a, b);
            } else {
                assert!(value(float(a).times(float(b))).is_nan());
            }
            let quotient = a / b;
            if !quotient.is_nan() {
                assert_eq!(float(a).divided_by(float(b)), float(quotient), "{} / {}", a, b);
            } else {
                assert!(value(float(a).divided_by(float(b))).is_nan());
            }
        }
    }
}

#[test]
fn exact_values() {
    assert_eq!(float(7.0).divided_by(float(2.0)), float(3.5));
    assert_eq!(float(1.5).plus(float(2.25)), float(3.75));
    assert_eq!(float(1.5).minus(float(2.25)), float(-0.75));
    assert_eq!(float(1.5).times(float(2.0)), float(3.0));
    assert_eq!(float(3.5).to_bits(), 0x400c_0000_0000_0000);
}

#[test]
fn negation_reverses_the_sign() {
    assert_eq!(float(1.5).negated(), float(-1.5));
    assert_eq!(float(-1.5).negated(), float(1.5));
    assert_eq!(float(0.0).negated(), float(-0.0));
    assert_eq!(float(f64::INFINITY).negated(), float(f64::NEG_INFINITY));
    assert_ne!(float(0.0), float(-0.0));
}

#[test]
fn integers_widen_exactly() {
    for i in [0, 1, -1, 7, 1 << 24, i32::MAX, i32::MIN, 123456789] {
        assert_eq!(Real::from_int(i), float(i as f64), "{}", i);
    }
}

#[test]
fn reals_are_cut_off_toward_zero() {
    for r in [
        0.0, -0.0, 0.5, -0.5, 2.9, -2.9, 7.0, 2147483647.0, 2147483647.5, -2147483648.0,
        -2147483648.9, 2147483648.0, 1e10, -1e10, 1e300, f64::INFINITY, f64::NEG_INFINITY,
        f64::NAN,
    ] {
        assert_eq!(float(r).to_int(), r as i32, "{}", r);
    }
    assert_eq!(float(2.9).to_int(), 2);
    assert_eq!(float(-2.9).to_int(), -2);
    assert_eq!(float(1e10).to_int(), i32::MAX);
    assert_eq!(float(-1e10).to_int(), i32::MIN);
    assert_eq!(float(f64::NAN).to_int(), 0);
}

#[test]
fn decimal_numerals() {
    for text in [
        "0.0", "5.0", "3.14", "0.1", "10.25", "007.500", "123456789.123456789",
        "0.000000000000000000000000000001", "179769313486231570000000000000000000000.5",
        "2.2250738585072014", "9007199254740993.0", "0.30000000000000004",
    ] {
        assert_eq!(
            Real::from_decimal(text),
            Some(float(text.parse::<f64>().unwrap())),
            "{}",
            text
        );
    }
    assert_eq!(Real::from_decimal("3.14"), Some(float(3.14)));
}

#[test]
fn other_texts_are_no_decimal_numerals() {
    for text in [
        "", ".", "1", "1.", ".5", "1.2.3", "-1.5", "+1.5", "1e5", "1.5e3", "inf", "nan", "0x1.8",
        "1 .5", "1,5", "\u{0663}.5", "1.\u{0663}", "a.b",
    ] {
        assert_eq!(Real::from_decimal(text), None, "{:?}", text);
    }
}
