use sensor_validator::text::to_decimal;
use sensor_validator::{Config, Double, Sensor, SensorType, ValidationError, ValidationResult};

fn report(valid: usize, invalid: usize) -> ValidationResult {
    let mut result = ValidationResult::new();
    for k in 0..valid {
        result.valid_sensors.push(Sensor {
            sensor_data: SensorType::Temperature(Double { bits: 25.0f64.to_bits() }),
            timestamp: k as u64,
        });
    }
    for k in 0..invalid {
        result.errors.push(ValidationError { line_number: k + 2, error_message: String::from("bad") });
    }
    result
}

#[test]
fn a_new_report_is_empty() {
    let result = ValidationResult::new();
    assert!(result.valid_sensors.is_empty());
    assert!(result.errors.is_empty());
}

#[test]
fn the_rate_of_an_empty_report_is_zero() {
    let rate = ValidationResult::new().success_rate();
    assert_eq!(rate.numerator, 0);
    assert_eq!(rate.denominator, 1);
    assert_eq!(rate.numerator as f64 / rate.denominator as f64, 0.0);
}

#[test]
fn the_rate_is_a_hundred_times_valid_over_total() {
    let rate = report(1, 2).success_rate();
    assert_eq!((rate.numerator, rate.denominator), (100, 3));
    let rate = report(3, 1).success_rate();
    assert_eq!((rate.numerator, rate.denominator), (300, 4));
    assert_eq!(rate.numerator as f64 / rate.denominator as f64, 75.0);
    let rate = report(0, 5).success_rate();
    assert_eq!((rate.numerator, rate.denominator), (0, 5));
    let rate = report(7, 0).success_rate();
    assert_eq!((rate.numerator, rate.denominator), (700, 7));
    assert_eq!(rate.numerator as f64 / rate.denominator as f64, 100.0);
}

#[test]
fn the_summary_counts_valid_invalid_and_total() {
    assert_eq!(report(0, 0).summary(), "Validation Complete:\n Valid: 0\n Invalid: 0\n Total: 0");
    assert_eq!(report(2, 0).summary(), "Validation Complete:\n Valid: 2\n Invalid: 0\n Total: 2");
    assert_eq!(report(9, 1).summary(), "Validation Complete:\n Valid: 9\n Invalid: 1\n Total: 10");
    assert_eq!(
        report(123, 1080).summary(),
        "Validation Complete:\n Valid: 123\n Invalid: 1080\n Total: 1203"
    );
}

#[test]
fn decimal_numerals_have_no_leading_zeros() {
    assert_eq!(to_decimal(0), "0");
    assert_eq!(to_decimal(7), "7");
    assert_eq!(to_decimal(9), "9");
    assert_eq!(to_decimal(10), "10");
    assert_eq!(to_decimal(99), "99");
    assert_eq!(to_decimal(100), "100");
    assert_eq!(to_decimal(1234567890), "1234567890");
    assert_eq!(to_decimal(u64::MAX as u128), u64::MAX.to_string());
    assert_eq!(to_decimal(u128::MAX), u128::MAX.to_string());
}

#[test]
fn decimal_numerals_agree_with_the_standard_ones() {
    let mut n: u128 = 0;
    while n < 1_000_000_000_000_000_000_000 {
        assert_eq!(to_decimal(n), n.to_string());
        n = n * 7 + 3;
    }
    for n in 0..2000u128 {
        assert_eq!(to_decimal(n), n.to_string());
    }
}

#[test]
fn build_takes_the_path_after_the_program_s_name() {
    let args = vec![String::from("prog"), String::from("data.csv")];
    let config = Config::build(&args).ok().unwrap();
    assert_eq!(config.file_path, "data.csv");
}

#[test]
fn build_ignores_further_arguments() {
    let args = vec![String::from("prog"), String::from("a.csv"), String::from("b.csv")];
    let config = Config::build(&args).ok().unwrap();
    assert_eq!(config.file_path, "a.csv");
}

#[test]
fn build_asks_for_a_path_when_there_is_none() {
    let only_name = vec![String::from("prog")];
    assert_eq!(Config::build(&only_name).err(), Some("Usage: cargo run <file_path>"));
    let nothing: Vec<String> = Vec::new();
    assert_eq!(Config::build(&nothing).err(), Some("Usage: cargo run <file_path>"));
}
