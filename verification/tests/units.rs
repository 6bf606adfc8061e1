use std::str::FromStr;
use thermometer::error::Error;
use thermometer::w1::thermometer::{Temperature, Units};

#[test]
fn test_units_conversion() {
    assert_eq!(Units::Celsius.as_ref().parse::<Units>().unwrap(), Units::Celsius);
    assert_eq!(Units::Fahrenheit.as_ref().parse::<Units>().unwrap(), Units::Fahrenheit);
}

#[test]
fn units_have_lowercase_names() {
    assert_eq!(Units::Celsius.as_ref(), "celsius");
    assert_eq!(Units::Fahrenheit.as_ref(), "fahrenheit");
}

#[test]
fn units_refuse_any_other_text() {
    assert_eq!(
        Units::from_str("kelvin").unwrap_err().description(),
        "Invalid temperature units: kelvin"
    );
    assert_eq!(Units::from_str("").unwrap_err().description(), "Invalid temperature units: ");
    assert!(Units::from_str("Celsius").is_err());
    assert!(Units::from_str("celsius ").is_err());
    assert!(Units::from_str("fahrenhei").is_err());
}

#[test]
fn temperature_holds_its_value() {
    assert_eq!(Temperature::new(10_123).value, 10_123);
    assert_eq!(Temperature::new(-50_000).value, -50_000);
    assert_eq!(Temperature::new(-1), Temperature { value: -1 });
    assert_eq!(Temperature::new(i64::MIN).value, i64::MIN);
}

#[test]
fn error_holds_its_message() {
    assert_eq!(Error::from("boom").description(), "boom");
    assert_eq!(Error::from("boom".to_string()).to_string(), "boom");
    assert_eq!(Error::io("No such file").description(), "I/O error: No such file");
    assert_eq!(Error::io("").description(), "I/O error: ");
}
