//! What the display shows: four lines of text, ready to be drawn.

use vstd::prelude::*;
use vstd::string::{StrSliceExecFns, StringExecFns};
use vstd::utf8::is_ascii_chars;

verus! {

/// What a model holds.
pub struct ModelView {
    pub inside_temperature: Seq<char>,
    pub outside_temperature: Seq<char>,
    pub time: Seq<char>,
    pub date: Seq<char>,
}

/// The line that shows a temperature: `name`, and behind it the formatted temperature, or
/// `N/A` where none is known.
pub open spec fn temperature_line(name: Seq<char>, temperature: Option<Seq<char>>) -> Seq<char> {
    match temperature {
        Some(text) => name + text,
        None => name + "N/A"@,
    }
}

/// The model of two formatted temperatures, each absent where none is known, at the time
/// that `timestamp` writes as `YYYY-MM-DDTHH:MM:SS` and more: the date is its first ten
/// characters, the time the eight from the twelfth on. A timestamp that is shorter, or not
/// in ASCII, gives no model.
pub open spec fn displayed(
    inside_temperature: Option<Seq<char>>,
    outside_temperature: Option<Seq<char>>,
    timestamp: Seq<char>,
) -> Option<ModelView> {
    if is_ascii_chars(timestamp) && timestamp.len() >= 19 {
        Some(
            ModelView {
                inside_temperature: temperature_line(
                    "Inside temperature "@,
                    inside_temperature,
                ),
                outside_temperature: temperature_line(
                    "Outside temperature "@,
                    outside_temperature,
                ),
                time: timestamp.subrange(11, 19),
                date: timestamp.subrange(0, 10),
            },
        )
    } else {
        None
    }
}

/// The view of a text that may be absent.
pub open spec fn text_of(text: Option<&str>) -> Option<Seq<char>> {
    match text {
        Some(text) => Some(text@),
        None => None,
    }
}

/// The line that shows a temperature.
fn line(name: &str, temperature: Option<&str>) -> (s: String)
    ensures
        s@ == temperature_line(name@, text_of(temperature)),
{
    match temperature {
        Some(text) => name.to_owned().concat(text),
        None => name.to_owned().concat("N/A"),
    }
}

/// Model for view containing ready to render / draw values.
#[derive(Debug)]
pub struct Model {
    inside_temperature: String,
    outside_temperature: String,
    time: String,
    date: String,
}

impl View for Model {
    type V = ModelView;

    closed spec fn view(&self) -> ModelView {
        ModelView {
            inside_temperature: self.inside_temperature@,
            outside_temperature: self.outside_temperature@,
            time: self.time@,
            date: self.date@,
        }
    }
}

impl Model {
    /// Create new view `Model` of the formatted inside temperature, outside temperature,
    /// time and date.
    pub fn new(inside_temperature: &str, outside_temperature: &str, time: &str, date: &str) -> (model:
        Model)
        ensures
            model@ == (ModelView {
                inside_temperature: inside_temperature@,
                outside_temperature: outside_temperature@,
                time: time@,
                date: date@,
            }),
    {
        Model {
            inside_temperature: inside_temperature.to_owned(),
            outside_temperature: outside_temperature.to_owned(),
            time: time.to_owned(),
            date: date.to_owned(),
        }
    }

    /// The model of two formatted temperatures, each absent where none is known, at the
    /// time that `timestamp` writes.
    pub fn from_readings(
        inside_temperature: Option<&str>,
        outside_temperature: Option<&str>,
        timestamp: &str,
    ) -> (model: Option<Model>)
        ensures
            match displayed(text_of(inside_temperature), text_of(outside_temperature), timestamp@) {
                Some(view) => model matches Some(m) && m@ == view,
                None => model is None,
            },
    {
        if !timestamp.is_ascii() || timestamp.unicode_len() < 19 {
            return None;
        }
        let date = timestamp.substring_ascii(0, 10);
        let time = timestamp.substring_ascii(11, 19);
        Some(
            Model {
                inside_temperature: line("Inside temperature ", inside_temperature),
                outside_temperature: line("Outside temperature ", outside_temperature),
                time: time.to_owned(),
                date: date.to_owned(),
            },
        )
    }

    /// Inside temperature.
    pub fn inside_temperature(&self) -> (text: &str)
        ensures
            text@ == self@.inside_temperature,
    {
        self.inside_temperature.as_str()
    }

    /// Outside temperature.
    pub fn outside_temperature(&self) -> (text: &str)
        ensures
            text@ == self@.outside_temperature,
    {
        self.outside_temperature.as_str()
    }

    /// Current time.
    pub fn time(&self) -> (text: &str)
        ensures
            text@ == self@.time,
    {
        self.time.as_str()
    }

    /// Current date.
    pub fn date(&self) -> (text: &str)
        ensures
            text@ == self@.date,
    {
        self.date.as_str()
    }
}

} // verus!
