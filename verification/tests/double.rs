use sensor_validator::Double;

fn double(value: f64) -> Double {
    Double { bits: value.to_bits() }
}

fn samples() -> Vec<f64> {
    let mut all = vec![
        0.0,
        5.0e-324,
        1.0e-310,
        f64::MIN_POSITIVE,
        f64::from_bits(f64::MIN_POSITIVE.to_bits() - 1),
        f64::from_bits(f64::MIN_POSITIVE.to_bits() + 1),
        0.1,
        0.5,
        1.0,
        1.0000000000000002,
        1.5,
        2.0,
        99.99999999999999,
        100.0,
        100.00000000000001,
        900.0,
        1100.0,
        4503599627370496.0,
        1.0e300,
        f64::MAX,
        f64::INFINITY,
        f64::NAN,
        f64::from_bits(0x7ff0_0000_0000_0001),
        f64::from_bits(0x7fff_ffff_ffff_ffff),
    ];
    let negatives: Vec<f64> = all.iter().map(|v| -v).collect();
    all.extend(negatives);
    all
}

#[test]
fn lt_is_the_float_less_than() {
    for a in samples() {
        for b in samples() {
            assert_eq!(double(a).lt(&double(b)), a < b, "{:?} < {:?}", a, b);
        }
    }
}

#[test]
fn gt_is_the_float_greater_than() {
    for a in samples() {
        for b in samples() {
            assert_eq!(double(a).gt(&double(b)), a > b, "{:?} > {:?}", a, b);
        }
    }
}

#[test]
fn eq_is_the_float_equality() {
    for a in samples() {
        for b in samples() {
            assert_eq!(double(a) == double(b), a == b, "{:?} == {:?}", a, b);
        }
    }
}

#[test]
fn the_two_zeros_are_equal_and_neither_is_less() {
    assert!(double(0.0) == double(-0.0));
    assert!(!double(-0.0).lt(&double(0.0)));
    assert!(!double(0.0).gt(&double(-0.0)));
}

#[test]
fn a_nan_is_not_ordered_and_not_equal_to_itself() {
    let nan = double(f64::NAN);
    assert!(!nan.lt(&nan));
    assert!(!nan.gt(&nan));
    assert!(nan != nan);
    assert!(!nan.lt(&double(f64::INFINITY)));
    assert!(!double(f64::NEG_INFINITY).lt(&nan));
}

#[test]
fn the_bounds_are_the_patterns_of_the_whole_numbers() {
    assert_eq!(sensor_validator::sensor::TEMPERATURE_LOW_BITS, 0.0f64.to_bits());
    assert_eq!(sensor_validator::sensor::TEMPERATURE_HIGH_BITS, 100.0f64.to_bits());
    assert_eq!(sensor_validator::sensor::PRESSURE_LOW_BITS, 900.0f64.to_bits());
    assert_eq!(sensor_validator::sensor::PRESSURE_HIGH_BITS, 1100.0f64.to_bits());
}
