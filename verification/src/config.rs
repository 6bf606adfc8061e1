//! The configuration of the application and the rules that its values have to meet.

use crate::decimal::{decimal_text, parse_u64, u64_to_string, unsigned_64};
use crate::error::Error;
use crate::text::chars_of;
use crate::w1::thermometer::Units;
use std::str::FromStr;
use vstd::prelude::*;
use vstd::string::StringExecFns;

verus! {

/// The device of the inside thermometer where none is named.
pub const DEFAULT_INSIDE_THERMOMETER: &'static str = "28-000009e8f6e7";

/// The device of the outside thermometer where none is named.
pub const DEFAULT_OUTSIDE_THERMOMETER: &'static str = "28-000009d4dffc";

/// The fewest frames per second that the display may be asked for.
pub const MIN_FPS: u64 = 2;

/// The most frames per second that the display may be asked for.
pub const MAX_FPS: u64 = 60;

/// The shortest interval between two reads of a thermometer, in milliseconds.
pub const MIN_TEMPERATURE_INTERVAL: u64 = 500;

/// The longest interval between two reads of a thermometer, in milliseconds.
pub const MAX_TEMPERATURE_INTERVAL: u64 = 60_000;

/// Why a text is no valid value.
#[derive(Clone, Copy, Debug, PartialEq, Eq, Structural)]
pub enum ValueFault {
    /// The text is no unsigned 64-bit integer.
    NotANumber,
    /// The number is below the bound that is held here.
    TooLow(u64),
    /// The number is above the bound that is held here.
    TooHigh(u64),
}

impl ValueFault {
    /// The message that reports this fault.
    pub open spec fn message(self) -> Seq<char> {
        match self {
            ValueFault::NotANumber => "Invalid port number"@,
            ValueFault::TooLow(min) => "Value must not be lower than "@ + decimal_text(min as nat),
            ValueFault::TooHigh(max) => "Value must not be greater than "@ + decimal_text(
                max as nat,
            ),
        }
    }

    /// The message that reports this fault.
    pub fn to_string(&self) -> (s: String)
        ensures
            s@ == self.message(),
    {
        match self {
            ValueFault::NotANumber => "Invalid port number".to_owned(),
            ValueFault::TooLow(min) => "Value must not be lower than ".to_owned().concat(
                u64_to_string(*min).as_str(),
            ),
            ValueFault::TooHigh(max) => "Value must not be greater than ".to_owned().concat(
                u64_to_string(*max).as_str(),
            ),
        }
    }
}

/// The number that `value` writes, where it is one that is not below `min` and not above
/// `max`, as far as these are given; else what is wrong with it.
pub open spec fn checked(value: Seq<char>, min: Option<u64>, max: Option<u64>) -> Result<
    u64,
    ValueFault,
> {
    match unsigned_64(value) {
        Err(_) => Err(ValueFault::NotANumber),
        Ok(number) => if min is Some && number < min->0 {
            Err(ValueFault::TooLow(min->0))
        } else if max is Some && number > max->0 {
            Err(ValueFault::TooHigh(max->0))
        } else {
            Ok(number as u64)
        },
    }
}

/// The number that `value` writes, where it is one within the bounds that are given.
pub fn check(value: &str, min: Option<u64>, max: Option<u64>) -> (r: Result<u64, ValueFault>)
    ensures
        r == checked(value@, min, max),
{
    let text = chars_of(value);
    match parse_u64(text.as_slice()) {
        Err(_) => Err(ValueFault::NotANumber),
        Ok(number) => {
            if let Some(min) = min {
                if number < min {
                    return Err(ValueFault::TooLow(min));
                }
            }
            if let Some(max) = max {
                if number > max {
                    return Err(ValueFault::TooHigh(max));
                }
            }
            Ok(number)
        },
    }
}

/// Return `()` in case provided argument is valid otherwise error message is returned.
///
/// `value` is a number in a `String`. If `min` is provided, `value` must be greater or
/// equal to `min`; if `max` is provided, `value` must be lower or equal to `max`.
pub fn validate(value: String, min: Option<u64>, max: Option<u64>) -> (r: Result<(), String>)
    ensures
        match checked(value@, min, max) {
            Ok(_) => r is Ok,
            Err(fault) => r matches Err(message) && message@ == fault.message(),
        },
{
    match check(value.as_str(), min, max) {
        Ok(_) => Ok(()),
        Err(fault) => Err(fault.to_string()),
    }
}

/// Whether `value` is a number of frames per second that the display may be asked for.
pub fn validate_max_fps(value: String) -> (r: Result<(), String>)
    ensures
        match checked(value@, Some(MIN_FPS), Some(MAX_FPS)) {
            Ok(_) => r is Ok,
            Err(fault) => r matches Err(message) && message@ == fault.message(),
        },
{
    validate(value, Some(MIN_FPS), Some(MAX_FPS))
}

/// Whether `value` is an interval, in milliseconds, at which the thermometers may be read.
pub fn validate_temperature_interval(value: String) -> (r: Result<(), String>)
    ensures
        match checked(value@, Some(MIN_TEMPERATURE_INTERVAL), Some(MAX_TEMPERATURE_INTERVAL)) {
            Ok(_) => r is Ok,
            Err(fault) => r matches Err(message) && message@ == fault.message(),
        },
{
    validate(value, Some(MIN_TEMPERATURE_INTERVAL), Some(MAX_TEMPERATURE_INTERVAL))
}

/// What a configuration holds.
pub struct ConfigView {
    pub inside_thermometer_device: Seq<char>,
    pub outside_thermometer_device: Seq<char>,
    pub temperature_units: Units,
    pub max_fps: u64,
    pub temperature_interval: u64,
}

/// The configuration that the five texts of the arguments give, or the message of the first
/// of them, in the order of units, frames per second and interval, that is not valid.
pub open spec fn configured(
    inside_thermometer_device: Seq<char>,
    outside_thermometer_device: Seq<char>,
    temperature_units: Seq<char>,
    max_fps: Seq<char>,
    temperature_interval: Seq<char>,
) -> Result<ConfigView, Seq<char>> {
    match Units::named(temperature_units) {
        None => Err(Units::invalid(temperature_units)),
        Some(units) => match checked(max_fps, Some(MIN_FPS), Some(MAX_FPS)) {
            Err(fault) => Err(fault.message()),
            Ok(fps) => match checked(
                temperature_interval,
                Some(MIN_TEMPERATURE_INTERVAL),
                Some(MAX_TEMPERATURE_INTERVAL),
            ) {
                Err(fault) => Err(fault.message()),
                Ok(interval) => Ok(
                    ConfigView {
                        inside_thermometer_device,
                        outside_thermometer_device,
                        temperature_units: units,
                        max_fps: fps,
                        temperature_interval: interval,
                    },
                ),
            },
        },
    }
}

/// Application configuration. The frames per second and the interval lie within their
/// bounds.
#[derive(Debug)]
pub struct Config {
    inside_thermometer_device: String,
    outside_thermometer_device: String,
    temperature_units: Units,
    max_fps: u64,
    temperature_interval: u64,
}

impl View for Config {
    type V = ConfigView;

    closed spec fn view(&self) -> ConfigView {
        ConfigView {
            inside_thermometer_device: self.inside_thermometer_device@,
            outside_thermometer_device: self.outside_thermometer_device@,
            temperature_units: self.temperature_units,
            max_fps: self.max_fps,
            temperature_interval: self.temperature_interval,
        }
    }
}

impl Config {
    #[verifier::type_invariant]
    spec fn within_bounds(self) -> bool {
        &&& MIN_FPS <= self.max_fps <= MAX_FPS
        &&& MIN_TEMPERATURE_INTERVAL <= self.temperature_interval <= MAX_TEMPERATURE_INTERVAL
    }

    /// Create new application `Config` from the texts of its five values.
    pub fn new(
        inside_thermometer_device: &str,
        outside_thermometer_device: &str,
        temperature_units: &str,
        max_fps: &str,
        temperature_interval: &str,
    ) -> (r: Result<Config, Error>)
        ensures
            match configured(
                inside_thermometer_device@,
                outside_thermometer_device@,
                temperature_units@,
                max_fps@,
                temperature_interval@,
            ) {
                Ok(view) => r matches Ok(config) && config@ == view,
                Err(message) => r matches Err(e) && e@ == message,
            },
    {
        let units = match Units::from_str(temperature_units) {
            Ok(units) => units,
            Err(e) => {
                return Err(e);
            },
        };
        let fps = match check(max_fps, Some(MIN_FPS), Some(MAX_FPS)) {
            Ok(fps) => fps,
            Err(fault) => {
                return Err(Error::from(fault.to_string()));
            },
        };
        let interval = match check(
            temperature_interval,
            Some(MIN_TEMPERATURE_INTERVAL),
            Some(MAX_TEMPERATURE_INTERVAL),
        ) {
            Ok(interval) => interval,
            Err(fault) => {
                return Err(Error::from(fault.to_string()));
            },
        };
        Ok(
            Config {
                inside_thermometer_device: inside_thermometer_device.to_owned(),
                outside_thermometer_device: outside_thermometer_device.to_owned(),
                temperature_units: units,
                max_fps: fps,
                temperature_interval: interval,
            },
        )
    }

    /// Inside thermometer device identifier.
    pub fn inside_thermometer_device(&self) -> (device: &str)
        ensures
            device@ == self@.inside_thermometer_device,
    {
        self.inside_thermometer_device.as_str()
    }

    /// Outside thermometer device identifier.
    pub fn outside_thermometer_device(&self) -> (device: &str)
        ensures
            device@ == self@.outside_thermometer_device,
    {
        self.outside_thermometer_device.as_str()
    }

    /// Temperature units.
    pub fn temperature_units(&self) -> (units: Units)
        ensures
            units == self@.temperature_units,
    {
        self.temperature_units
    }

    /// Max frames per second.
    pub fn max_fps(&self) -> (fps: u64)
        ensures
            fps == self@.max_fps,
            MIN_FPS <= fps <= MAX_FPS,
    {
        proof {
            use_type_invariant(self);
        }
        self.max_fps
    }

    /// Interval in which temperatures are read from sensors (ms)
    pub fn temperature_interval(&self) -> (interval: u64)
        ensures
            interval == self@.temperature_interval,
            MIN_TEMPERATURE_INTERVAL <= interval <= MAX_TEMPERATURE_INTERVAL,
    {
        proof {
            use_type_invariant(self);
        }
        self.temperature_interval
    }
}

} // verus!
