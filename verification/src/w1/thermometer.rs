//! Temperature sensors, the temperatures they measure and the units these are shown in.

use crate::error::Error;
use crate::w1::device::Device;
use std::str::FromStr;
use vstd::prelude::*;
use vstd::string::StringExecFns;

pub mod ds18b20;

verus! {

/// A temperature sensor on the one-wire bus.
pub trait Thermometer: Device {
    /// The temperature that the lines read from the device report.
    fn temperature(&self, lines: &[&str]) -> Result<Temperature, Error>;
}

/// Temperature unit.
#[derive(Clone, Copy, Debug, PartialEq, Eq, Structural)]
pub enum Units {
    Celsius,
    Fahrenheit,
}

impl Units {
    /// The lower-case name of the unit.
    pub open spec fn name(self) -> Seq<char> {
        match self {
            Units::Celsius => "celsius"@,
            Units::Fahrenheit => "fahrenheit"@,
        }
    }

    /// The unit that `s` names, if it names one.
    pub open spec fn named(s: Seq<char>) -> Option<Units> {
        if s == "celsius"@ {
            Some(Units::Celsius)
        } else if s == "fahrenheit"@ {
            Some(Units::Fahrenheit)
        } else {
            None
        }
    }

    /// The message of the error for a text that names no unit.
    pub open spec fn invalid(s: Seq<char>) -> Seq<char> {
        "Invalid temperature units: "@ + s
    }

    /// Each unit is the one that its own name names.
    pub proof fn lemma_name_names(self)
        ensures
            Units::named(self.name()) == Some(self),
    {
        reveal_strlit("celsius");
        reveal_strlit("fahrenheit");
        assert("celsius"@.len() != "fahrenheit"@.len());
    }
}

impl AsRef<str> for Units {
    fn as_ref(&self) -> (s: &str)
        ensures
            s@ == self.name(),
    {
        match self {
            Units::Celsius => "celsius",
            Units::Fahrenheit => "fahrenheit",
        }
    }
}

impl FromStr for Units {
    type Err = Error;

    fn from_str(s: &str) -> (r: Result<Units, Error>)
        ensures
            match Units::named(s@) {
                Some(u) => r == Ok::<Units, Error>(u),
                None => r matches Err(e) && e@ == Units::invalid(s@),
            },
    {
        let text = s.to_owned();
        if text == "celsius".to_owned() {
            Ok(Units::Celsius)
        } else if text == "fahrenheit".to_owned() {
            Ok(Units::Fahrenheit)
        } else {
            Err(Error::from("Invalid temperature units: ".to_owned().concat(s)))
        }
    }
}

/// A temperature. Every value is one: the two by which a sensor reports an error are kept
/// out where a sensor's text is read.
#[derive(Clone, Copy, Debug, PartialEq, Eq, Structural)]
pub struct Temperature {
    /// Value in celsius degrees multiplied by 1_000
    pub value: i64,
}

impl Temperature {
    /// Create new `Temperature` of `value` thousandths of a degree Celsius.
    pub fn new(value: i64) -> (t: Temperature)
        ensures
            t == (Temperature { value }),
    {
        Temperature { value }
    }
}

} // verus!
