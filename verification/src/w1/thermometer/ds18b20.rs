//! The DS18B20 thermometer and the two lines of text in which it reports a temperature.

use crate::decimal::{
    is_digit, lemma_leading_digits_are_digits, leading_digits, parse_i64, signed_64, IntFault,
};
use crate::error::Error;
use crate::text::{
    chars_of, contains, ends_with, field_after, field_range, lemma_field_after_single,
    lemma_index_of_absent, lemma_occurrence_characters, occurs_at,
};
use crate::w1::device::{slave_device_path, Device, DEVICE_PATH_FOLDER, SLAVE_DEVICE_PATH_SUFFIX};
use crate::w1::thermometer::{Temperature, Thermometer};
use vstd::prelude::*;
use vstd::slice::slice_subrange;
use vstd::string::StringExecFns;

verus! {

/// W1 DS18B20 thermometer device. Its view is the path of the file that holds what it reads.
pub struct DS18B20 {
    path: String,
}

impl View for DS18B20 {
    type V = Seq<char>;

    closed spec fn view(&self) -> Seq<char> {
        self.path@
    }
}

impl DS18B20 {
    /// The thermometer that the bus shows in the folder `device`.
    pub fn new(device: &str) -> (d: DS18B20)
        ensures
            d@ == slave_device_path(device@),
    {
        let mut path = DEVICE_PATH_FOLDER.to_owned();
        path.append("/");
        path.append(device);
        path.append("/");
        path.append(SLAVE_DEVICE_PATH_SUFFIX);
        DS18B20 { path }
    }
}

impl Device for DS18B20 {
    fn device_path(&self) -> (p: &str)
        ensures
            p@ == self@,
    {
        self.path.as_str()
    }
}

/// The value that the sensor reports when it has no valid reading.
pub const INVALID_READING: i64 = -1;

/// The value that the sensor reports when it is at fault: its power-on value.
pub const SENSOR_FAULT: i64 = 85_000;

/// Why two lines of text report no temperature.
#[derive(Clone, Copy, Debug, PartialEq, Eq, Structural)]
pub enum ReadingFault {
    /// There is no first line.
    NoFirstLine,
    /// The first line does not end with the word that marks a valid checksum.
    InvalidCrc,
    /// There is no second line.
    NoSecondLine,
    /// The second line does not hold the marker that leads the value.
    NoSeparator,
    /// What follows the marker is no signed 64-bit integer.
    NotANumber(IntFault),
    /// The value is the one that stands for an invalid reading.
    InvalidReading,
    /// The value is the one that stands for a sensor fault.
    SensorFault,
}

/// The word that ends the first line when the checksum of the block is valid.
pub open spec fn checksum_valid() -> Seq<char> {
    "YES"@
}

/// The word that ends the first line when the checksum of the block is not valid.
pub open spec fn checksum_invalid() -> Seq<char> {
    "NO"@
}

/// The marker that leads the value in the second line.
pub open spec fn value_marker() -> Seq<char> {
    "t="@
}

/// The temperature, in thousandths of a degree Celsius, that `lines` report, or why they
/// report none.
///
/// The first line has to end with the word for a valid checksum. In the second line the value
/// stands behind the first marker and ends before the next marker, or with the line; it is
/// read as a signed 64-bit integer, and the two values by which the sensor reports an error
/// are no temperatures.
pub open spec fn reading(lines: Seq<Seq<char>>) -> Result<int, ReadingFault> {
    if lines.len() < 1 {
        Err(ReadingFault::NoFirstLine)
    } else if !checksum_valid().is_suffix_of(lines[0]) {
        Err(ReadingFault::InvalidCrc)
    } else if lines.len() < 2 {
        Err(ReadingFault::NoSecondLine)
    } else {
        match field_after(lines[1], value_marker()) {
            None => Err(ReadingFault::NoSeparator),
            Some(text) => match signed_64(text) {
                Err(fault) => Err(ReadingFault::NotANumber(fault)),
                Ok(value) => if value == INVALID_READING {
                    Err(ReadingFault::InvalidReading)
                } else if value == SENSOR_FAULT {
                    Err(ReadingFault::SensorFault)
                } else {
                    Ok(value)
                },
            },
        }
    }
}

/// The characters of each of `lines`.
pub open spec fn texts(lines: Seq<&str>) -> Seq<Seq<char>> {
    Seq::new(lines.len(), |i: int| lines[i]@)
}

impl ReadingFault {
    /// The message of the error that reports this fault.
    pub open spec fn message(self) -> Seq<char> {
        match self {
            ReadingFault::NoFirstLine => "Unable to get first temperature line"@,
            ReadingFault::InvalidCrc => "Invalid temperature CRC"@,
            ReadingFault::NoSecondLine => "Unable to get second temperature line"@,
            ReadingFault::NoSeparator => "Missing t= separator"@,
            ReadingFault::NotANumber(fault) => "Unable to parse temperature: "@ + fault.message(),
            ReadingFault::InvalidReading => "Invalid temperature value (-1)"@,
            ReadingFault::SensorFault => "Sensor error (t=85000)"@,
        }
    }

    /// The error that reports this fault.
    pub fn error(&self) -> (e: Error)
        ensures
            e@ == self.message(),
    {
        match self {
            ReadingFault::NoFirstLine => Error::from("Unable to get first temperature line"),
            ReadingFault::InvalidCrc => Error::from("Invalid temperature CRC"),
            ReadingFault::NoSecondLine => Error::from("Unable to get second temperature line"),
            ReadingFault::NoSeparator => Error::from("Missing t= separator"),
            ReadingFault::NotANumber(fault) => Error::from(
                "Unable to parse temperature: ".to_owned().concat(fault.description()),
            ),
            ReadingFault::InvalidReading => Error::from("Invalid temperature value (-1)"),
            ReadingFault::SensorFault => Error::from("Sensor error (t=85000)"),
        }
    }
}

/// The value that `lines` report, or why they report none.
pub fn read_value(lines: &[&str]) -> (r: Result<i64, ReadingFault>)
    ensures
        match r {
            Ok(value) => reading(texts(lines@)) == Ok::<int, ReadingFault>(value as int),
            Err(fault) => reading(texts(lines@)) == Err::<int, ReadingFault>(fault),
        },
{
    if lines.len() < 1 {
        return Err(ReadingFault::NoFirstLine);
    }
    let first = chars_of(lines[0]);
    let valid = chars_of("YES");
    if !ends_with(first.as_slice(), valid.as_slice()) {
        return Err(ReadingFault::InvalidCrc);
    }
    if lines.len() < 2 {
        return Err(ReadingFault::NoSecondLine);
    }
    let second = chars_of(lines[1]);
    let marker = chars_of("t=");
    match field_range(second.as_slice(), marker.as_slice()) {
        None => Err(ReadingFault::NoSeparator),
        Some((from, to)) => match parse_i64(slice_subrange(second.as_slice(), from, to)) {
            Err(fault) => Err(ReadingFault::NotANumber(fault)),
            Ok(value) => if value == INVALID_READING {
                Err(ReadingFault::InvalidReading)
            } else if value == SENSOR_FAULT {
                Err(ReadingFault::SensorFault)
            } else {
                Ok(value)
            },
        },
    }
}

/// Parse DS18B20 sensor temperature value.
///
/// `lines` are the lines read from the device. The result is the temperature that they
/// report, or the error that says why they report none.
pub fn parse_temperature(lines: &[&str]) -> (r: Result<Temperature, Error>)
    ensures
        match reading(texts(lines@)) {
            Ok(value) => r matches Ok(t) && t.value == value,
            Err(fault) => r matches Err(e) && e@ == fault.message(),
        },
{
    match read_value(lines) {
        Ok(value) => Ok(Temperature::new(value)),
        Err(fault) => Err(fault.error()),
    }
}

/// A text that writes a signed 64-bit integer holds a sign or a digit first, and digits after.
pub proof fn lemma_number_characters(number: Seq<char>)
    requires
        signed_64(number) is Ok,
    ensures
        number.len() > 0,
        is_digit(number[0]) || number[0] == '+' || number[0] == '-',
        forall|k: int| 1 <= k < number.len() ==> is_digit(#[trigger] number[k]),
{
    let signed = number[0] == '+' || number[0] == '-';
    let body = if signed {
        number.drop_first()
    } else {
        number
    };
    lemma_leading_digits_are_digits(body);
    assert(leading_digits(body) == body.len());
    assert forall|k: int| 1 <= k < number.len() implies is_digit(#[trigger] number[k]) by {
        if signed {
            assert(body[k - 1] == number[k]);
        } else {
            assert(body[k] == number[k]);
        }
    }
    if !signed {
        assert(body[0] == number[0]);
    }
}

/// In a line made of a text without the marker, the marker and a number, the marker stands
/// nowhere before the end of the first text.
proof fn lemma_no_marker_before(prefix: Seq<char>, number: Seq<char>, k: int)
    requires
        !contains(prefix, value_marker()),
        0 <= k < prefix.len(),
    ensures
        !occurs_at(prefix + value_marker() + number, value_marker(), k),
{
    reveal_strlit("t=");
    let marker = value_marker();
    let line = prefix + marker + number;
    if occurs_at(line, marker, k) {
        lemma_occurrence_characters(line, marker, k, 0);
        lemma_occurrence_characters(line, marker, k, 1);
        if k + 2 <= prefix.len() {
            assert(prefix.subrange(k, k + 2) =~= line.subrange(k, k + 2));
            assert(occurs_at(prefix, marker, k));
        } else {
            assert(line[k + 1] == marker[0]);
        }
    }
}

/// In a line made of a text, the marker and a number, the marker stands nowhere in the
/// number.
proof fn lemma_no_marker_behind(prefix: Seq<char>, number: Seq<char>, k: int)
    requires
        signed_64(number) is Ok,
        prefix.len() + 2 <= k,
    ensures
        !occurs_at(prefix + value_marker() + number, value_marker(), k),
{
    reveal_strlit("t=");
    let marker = value_marker();
    let line = prefix + marker + number;
    if occurs_at(line, marker, k) {
        lemma_occurrence_characters(line, marker, k, 0);
        lemma_number_characters(number);
        assert(line[k] == number[k - prefix.len() - 2]);
    }
}

/// In a line made of a text without the marker, the marker and a number, the value is the
/// number.
pub proof fn lemma_value_of_line(prefix: Seq<char>, number: Seq<char>)
    requires
        !contains(prefix, value_marker()),
        signed_64(number) is Ok,
    ensures
        field_after(prefix + value_marker() + number, value_marker()) == Some(number),
{
    reveal_strlit("t=");
    let marker = value_marker();
    let line = prefix + marker + number;
    let p = prefix.len() as int;
    assert(line.subrange(p, p + 2) =~= marker);
    assert forall|k: int| 0 <= k < p implies !occurs_at(line, marker, k) by {
        lemma_no_marker_before(prefix, number, k);
    }
    assert forall|k: int| p + marker.len() <= k implies !occurs_at(line, marker, k) by {
        lemma_no_marker_behind(prefix, number, k);
    }
    lemma_field_after_single(line, marker, p);
    assert(line.subrange(p + 2, line.len() as int) =~= number);
}

/// Two lines of which the first ends with the word for a valid checksum, and the second is a
/// text without the marker, the marker and a number that stands for no error, report that
/// number.
pub proof fn lemma_valid_payload_reads(
    first: Seq<char>,
    prefix: Seq<char>,
    number: Seq<char>,
    value: int,
)
    requires
        checksum_valid().is_suffix_of(first),
        !contains(prefix, value_marker()),
        signed_64(number) == Ok::<int, IntFault>(value),
        value != INVALID_READING,
        value != SENSOR_FAULT,
    ensures
        reading(seq![first, prefix + value_marker() + number]) == Ok::<int, ReadingFault>(value),
{
    lemma_value_of_line(prefix, number);
}

/// Lines of which the first ends with the word for an invalid checksum report no temperature,
/// whatever the second line holds.
pub proof fn lemma_invalid_checksum_fails(lines: Seq<Seq<char>>)
    requires
        lines.len() >= 1,
        checksum_invalid().is_suffix_of(lines[0]),
    ensures
        reading(lines) == Err::<int, ReadingFault>(ReadingFault::InvalidCrc),
{
    reveal_strlit("YES");
    reveal_strlit("NO");
    let first = lines[0];
    let n = first.len() as int;
    if checksum_valid().is_suffix_of(first) {
        assert(first.subrange(n - 3, n)[2] == first[n - 1]);
        assert(first.subrange(n - 2, n)[1] == first[n - 1]);
    }
}

/// A valid first line and a second line whose number is one of the two by which the sensor
/// reports an error report no temperature.
pub proof fn lemma_sentinels_fail(
    first: Seq<char>,
    prefix: Seq<char>,
    number: Seq<char>,
    value: int,
)
    requires
        checksum_valid().is_suffix_of(first),
        !contains(prefix, value_marker()),
        signed_64(number) == Ok::<int, IntFault>(value),
    ensures
        value == INVALID_READING ==> reading(seq![first, prefix + value_marker() + number]) == Err::<
            int,
            ReadingFault,
        >(ReadingFault::InvalidReading),
        value == SENSOR_FAULT ==> reading(seq![first, prefix + value_marker() + number]) == Err::<
            int,
            ReadingFault,
        >(ReadingFault::SensorFault),
{
    lemma_value_of_line(prefix, number);
}

/// A valid first line alone, or one followed by a line without the marker, reports no
/// temperature.
pub proof fn lemma_missing_value_fails(lines: Seq<Seq<char>>)
    requires
        lines.len() >= 1,
        checksum_valid().is_suffix_of(lines[0]),
    ensures
        lines.len() == 1 ==> reading(lines) == Err::<int, ReadingFault>(
            ReadingFault::NoSecondLine,
        ),
        lines.len() >= 2 && !contains(lines[1], value_marker()) ==> reading(lines) == Err::<
            int,
            ReadingFault,
        >(ReadingFault::NoSeparator),
{
    if lines.len() >= 2 && !contains(lines[1], value_marker()) {
        lemma_index_of_absent(lines[1], value_marker(), 0);
    }
}

impl Thermometer for DS18B20 {
    fn temperature(&self, lines: &[&str]) -> (r: Result<Temperature, Error>)
        ensures
            match reading(texts(lines@)) {
                Ok(value) => r matches Ok(t) && t.value == value,
                Err(fault) => r matches Err(e) && e@ == fault.message(),
            },
    {
        parse_temperature(lines)
    }
}

} // verus!
