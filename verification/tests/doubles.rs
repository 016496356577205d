use stringly_typed::{Double, Value};

fn dbl(x: f64) -> Double {
    Double::from_bits(x.to_bits())
}

fn samples() -> Vec<f64> {
    vec![
        0.0,
        -0.0,
        1.0,
        -1.0,
        3.14,
        42.0,
        f64::MIN_POSITIVE,
        f64::from_bits(1),
        f64::from_bits(0x8000_0000_0000_0001),
        f64::MAX,
        f64::MIN,
        f64::EPSILON,
        f64::INFINITY,
        f64::NEG_INFINITY,
        f64::NAN,
        -f64::NAN,
        f64::from_bits(0x7ff0_0000_0000_0001),
        f64::from_bits(0xfff0_0000_0000_0001),
        f64::from_bits(0x7fff_ffff_ffff_ffff),
    ]
}

#[test]
fn bits_go_in_and_come_out() {
    for x in samples() {
        assert_eq!(dbl(x).to_bits(), x.to_bits());
        assert_eq!(dbl(x).bits, x.to_bits());
    }
    assert_eq!(Double::from_bits(0x4045_0000_0000_0000).to_bits(), 0x4045_0000_0000_0000);
    assert_eq!(f64::from_bits(Double::from_bits(0x4045_0000_0000_0000).to_bits()), 42.0);
}

#[test]
fn equality_is_that_of_the_numbers() {
    for a in samples() {
        for b in samples() {
            assert_eq!(dbl(a) == dbl(b), a == b, "{:?} and {:?}", a, b);
            assert_eq!(dbl(a) != dbl(b), a != b, "{:?} and {:?}", a, b);
            assert_eq!(
                Value::Double(dbl(a)) == Value::Double(dbl(b)),
                a == b,
                "{:?} and {:?}",
                a,
                b
            );
        }
    }
}

#[test]
fn nan_equals_nothing() {
    let nan = dbl(f64::NAN);
    assert!(nan != nan);
    assert!(nan != dbl(0.0));
    assert!(Value::Double(nan) != Value::Double(nan));
}

#[test]
fn the_two_zeroes_are_equal() {
    assert_eq!(dbl(0.0), dbl(-0.0));
    assert_ne!(dbl(0.0).to_bits(), dbl(-0.0).to_bits());
}

#[test]
fn is_nan_is_that_of_the_numbers() {
    for x in samples() {
        assert_eq!(dbl(x).is_nan(), x.is_nan(), "{:?}", x);
    }
    assert!(!dbl(f64::INFINITY).is_nan());
    assert!(dbl(f64::NAN).is_nan());
}

#[test]
fn default_double_is_positive_zero() {
    assert_eq!(Double::default().to_bits(), 0);
    assert_eq!(f64::from_bits(Double::default().to_bits()), f64::default());
}
