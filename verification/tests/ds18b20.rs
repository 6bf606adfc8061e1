use thermometer::w1::device::Device;
use thermometer::w1::thermometer::ds18b20::{
    parse_temperature, read_value, ReadingFault, DS18B20,
};
use thermometer::decimal::IntFault;
use thermometer::w1::thermometer::Thermometer;

#[test]
fn test_parser_valid_temperature() {
    let temp = parse_temperature(&vec![
        "b2 01 4b 46 7f ff 0e 10 8c : crc=8c YES",
        "b2 01 4b 46 7f ff 0e 10 8c t=27125",
    ])
    .unwrap();

    assert_eq!(temp.value, 27125);
    assert_eq!((temp.value as f64) / 1_000.0, 27.125);
}

#[test]
fn test_parser_invalid_temperature_minus_one() {
    let temp = parse_temperature(&vec![
        "b2 01 4b 46 7f ff 0e 10 8c : crc=8c YES",
        "b2 01 4b 46 7f ff 0e 10 8c t=-1",
    ]);

    assert!(temp.is_err());
}

#[test]
fn test_parser_invalid_temperature_crc() {
    let temp = parse_temperature(&vec![
        "b2 01 4b 46 7f ff 0e 10 8c : crc=8c NO",
        "b2 01 4b 46 7f ff 0e 10 8c t=27125",
    ]);

    assert!(temp.is_err());
}

#[test]
fn test_parser_sensor_error() {
    let temp = parse_temperature(&vec![
        "b2 01 4b 46 7f ff 0e 10 8c : crc=8c NO",
        "b2 01 4b 46 7f ff 0e 10 8c t=85000",
    ]);

    assert!(temp.is_err());
}

#[test]
fn test_parser_invalid_temperature_value() {
    let temp = parse_temperature(&vec![
        "b2 01 4b 46 7f ff 0e 10 8c : crc=8c YES",
        "b2 01 4b 46 7f ff 0e 10 8c t=hallo",
    ]);

    assert!(temp.is_err());
}

#[test]
fn test_parser_invalid_temperature_format() {
    let temp = parse_temperature(&vec!["YES"]);
    assert!(temp.is_err());
}

#[test]
fn parser_reads_negative_and_signed_values() {
    assert_eq!(parse_temperature(&["x YES", "y t=-5000"]).unwrap().value, -5000);
    assert_eq!(parse_temperature(&["x YES", "y t=+125"]).unwrap().value, 125);
    assert_eq!(parse_temperature(&["x YES", "y t=0"]).unwrap().value, 0);
    assert_eq!(parse_temperature(&["YES", "t=-0"]).unwrap().value, 0);
    assert_eq!(parse_temperature(&["YES", "t=00027125"]).unwrap().value, 27125);
}

#[test]
fn parser_reads_widest_values() {
    assert_eq!(
        parse_temperature(&["YES", "t=9223372036854775807"]).unwrap().value,
        i64::MAX
    );
    assert_eq!(
        parse_temperature(&["YES", "t=-9223372036854775808"]).unwrap().value,
        i64::MIN
    );
}

#[test]
fn parser_accepts_neighbours_of_the_error_values() {
    assert_eq!(parse_temperature(&["YES", "t=-2"]).unwrap().value, -2);
    assert_eq!(parse_temperature(&["YES", "t=0"]).unwrap().value, 0);
    assert_eq!(parse_temperature(&["YES", "t=84999"]).unwrap().value, 84999);
    assert_eq!(parse_temperature(&["YES", "t=85001"]).unwrap().value, 85001);
    assert_eq!(parse_temperature(&["YES", "t=-1000"]).unwrap().value, -1000);
    assert_eq!(parse_temperature(&["YES", "t=85000000"]).unwrap().value, 85000000);
}

#[test]
fn parser_ignores_lines_after_the_second() {
    assert_eq!(parse_temperature(&["YES", "t=1", "t=2", "NO"]).unwrap().value, 1);
}

#[test]
fn parser_takes_the_text_between_the_first_two_markers() {
    assert_eq!(parse_temperature(&["YES", "t=5t=6"]).unwrap().value, 5);
    assert_eq!(parse_temperature(&["YES", "at=5t=6t=7"]).unwrap().value, 5);
    assert_eq!(read_value(&["YES", "t=5 t=6"]), Err(ReadingFault::NotANumber(IntFault::InvalidDigit)));
    assert_eq!(read_value(&["YES", "t=t=6"]), Err(ReadingFault::NotANumber(IntFault::Empty)));
    assert_eq!(read_value(&["YES", "tt=7"]), Ok(7));
    assert_eq!(read_value(&["YES", "t =7 =t t=8"]), Ok(8));
}

#[test]
fn parser_reads_text_that_is_not_ascii() {
    assert_eq!(parse_temperature(&["\u{fffd}\u{e9} YES", "\u{fffd}\u{4e2d} t=21000"]).unwrap().value, 21000);
    assert_eq!(read_value(&["YES", "t=\u{663}"]), Err(ReadingFault::NotANumber(IntFault::InvalidDigit)));
    assert_eq!(read_value(&["YE\u{fffd}", "t=1"]), Err(ReadingFault::InvalidCrc));
}

#[test]
fn parser_names_each_fault() {
    let none: [&str; 0] = [];
    assert_eq!(read_value(&none), Err(ReadingFault::NoFirstLine));
    assert_eq!(read_value(&["crc=8c NO", "t=27125"]), Err(ReadingFault::InvalidCrc));
    assert_eq!(read_value(&["", "t=27125"]), Err(ReadingFault::InvalidCrc));
    assert_eq!(read_value(&["ES", "t=27125"]), Err(ReadingFault::InvalidCrc));
    assert_eq!(read_value(&["YES ", "t=27125"]), Err(ReadingFault::InvalidCrc));
    assert_eq!(read_value(&["yes", "t=27125"]), Err(ReadingFault::InvalidCrc));
    assert_eq!(read_value(&["YES"]), Err(ReadingFault::NoSecondLine));
    assert_eq!(read_value(&["YES", "27125"]), Err(ReadingFault::NoSeparator));
    assert_eq!(read_value(&["YES", ""]), Err(ReadingFault::NoSeparator));
    assert_eq!(read_value(&["YES", "T=27125"]), Err(ReadingFault::NoSeparator));
    assert_eq!(read_value(&["YES", "t 27125 ="]), Err(ReadingFault::NoSeparator));
    assert_eq!(read_value(&["YES", "t="]), Err(ReadingFault::NotANumber(IntFault::Empty)));
    assert_eq!(read_value(&["YES", "t=-"]), Err(ReadingFault::NotANumber(IntFault::InvalidDigit)));
    assert_eq!(read_value(&["YES", "t=27.125"]), Err(ReadingFault::NotANumber(IntFault::InvalidDigit)));
    assert_eq!(
        read_value(&["YES", "t=9223372036854775808"]),
        Err(ReadingFault::NotANumber(IntFault::PosOverflow))
    );
    assert_eq!(
        read_value(&["YES", "t=-9223372036854775809"]),
        Err(ReadingFault::NotANumber(IntFault::NegOverflow))
    );
    assert_eq!(read_value(&["YES", "t=-1"]), Err(ReadingFault::InvalidReading));
    assert_eq!(read_value(&["YES", "t=-01"]), Err(ReadingFault::InvalidReading));
    assert_eq!(read_value(&["YES", "t=85000"]), Err(ReadingFault::SensorFault));
    assert_eq!(read_value(&["YES", "t=+85000"]), Err(ReadingFault::SensorFault));
}

#[test]
fn parser_reports_each_fault_in_words() {
    let none: [&str; 0] = [];
    assert_eq!(
        parse_temperature(&none).unwrap_err().description(),
        "Unable to get first temperature line"
    );
    assert_eq!(
        parse_temperature(&["NO", "t=1"]).unwrap_err().description(),
        "Invalid temperature CRC"
    );
    assert_eq!(
        parse_temperature(&["YES"]).unwrap_err().description(),
        "Unable to get second temperature line"
    );
    assert_eq!(
        parse_temperature(&["YES", "1"]).unwrap_err().description(),
        "Missing t= separator"
    );
    assert_eq!(
        parse_temperature(&["YES", "t=hallo"]).unwrap_err().description(),
        format!("Unable to parse temperature: {}", "hallo".parse::<i64>().unwrap_err())
    );
    assert_eq!(
        parse_temperature(&["YES", "t="]).unwrap_err().description(),
        format!("Unable to parse temperature: {}", "".parse::<i64>().unwrap_err())
    );
    assert_eq!(
        parse_temperature(&["YES", "t=99999999999999999999"]).unwrap_err().description(),
        format!(
            "Unable to parse temperature: {}",
            "99999999999999999999".parse::<i64>().unwrap_err()
        )
    );
    assert_eq!(
        parse_temperature(&["YES", "t=-99999999999999999999"]).unwrap_err().description(),
        format!(
            "Unable to parse temperature: {}",
            "-99999999999999999999".parse::<i64>().unwrap_err()
        )
    );
    assert_eq!(
        parse_temperature(&["YES", "t=-1"]).unwrap_err().description(),
        "Invalid temperature value (-1)"
    );
    assert_eq!(
        parse_temperature(&["YES", "t=85000"]).unwrap_err().description(),
        "Sensor error (t=85000)"
    );
}

#[test]
fn fault_messages_are_those_of_the_errors() {
    assert_eq!(ReadingFault::InvalidCrc.error().description(), "Invalid temperature CRC");
    assert_eq!(
        ReadingFault::NotANumber(IntFault::InvalidDigit).error().to_string(),
        "Unable to parse temperature: invalid digit found in string"
    );
}

#[test]
fn device_path_is_built_from_the_device_name() {
    let device = DS18B20::new("28-000009e8f6e7");
    assert_eq!(device.device_path(), "/sys/bus/w1/devices/28-000009e8f6e7/w1_slave");
    assert_eq!(DS18B20::new("").device_path(), "/sys/bus/w1/devices//w1_slave");
}

#[test]
fn thermometer_parses_what_its_device_reads() {
    let device = DS18B20::new("28-000009d4dffc");
    let temp = device
        .temperature(&["b2 01 4b 46 7f ff 0e 10 8c : crc=8c YES", "b2 01 4b 46 7f ff 0e 10 8c t=27125"])
        .unwrap();
    assert_eq!(temp.value, 27125);
    assert!(device.temperature(&["YES", "t=85000"]).is_err());
}
