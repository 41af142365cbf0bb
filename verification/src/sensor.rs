//! Sensor readings and the range rule of each category.

use vstd::prelude::*;
use vstd::arithmetic::power2::*;
use vstd::string::*;
use crate::double::{lemma_whole_number, whole, Double};
use crate::read_csv::DataLine;

verus! {

/// The bit pattern of 0, the lowest valid temperature.
pub const TEMPERATURE_LOW_BITS: u64 = 0;

/// The bit pattern of 100, the highest valid temperature.
pub const TEMPERATURE_HIGH_BITS: u64 = 0x4059_0000_0000_0000;

/// The bit pattern of 900, the lowest valid pressure.
pub const PRESSURE_LOW_BITS: u64 = 0x408c_2000_0000_0000;

/// The bit pattern of 1100, the highest valid pressure.
pub const PRESSURE_HIGH_BITS: u64 = 0x4091_3000_0000_0000;

/// The four bounds encode the whole numbers 0, 100, 900 and 1100.
pub proof fn lemma_bounds()
    ensures
        !(Double { bits: TEMPERATURE_LOW_BITS }).is_nan(),
        (Double { bits: TEMPERATURE_LOW_BITS }).scaled() == whole(0),
        !(Double { bits: TEMPERATURE_HIGH_BITS }).is_nan(),
        (Double { bits: TEMPERATURE_HIGH_BITS }).scaled() == whole(100),
        !(Double { bits: PRESSURE_LOW_BITS }).is_nan(),
        (Double { bits: PRESSURE_LOW_BITS }).scaled() == whole(900),
        !(Double { bits: PRESSURE_HIGH_BITS }).is_nan(),
        (Double { bits: PRESSURE_HIGH_BITS }).scaled() == whole(1100),
{
    lemma2_to64_rest();
    lemma_whole_number(TEMPERATURE_HIGH_BITS, 100, 6);
    lemma_whole_number(PRESSURE_LOW_BITS, 900, 9);
    lemma_whole_number(PRESSURE_HIGH_BITS, 1100, 10);
}

/// What is wrong with a value held against the closed range from `low` to `high`: the
/// first reason if it is a number below `low`, the second if it is a number above
/// `high`, and nothing otherwise. A NaN is neither below nor above anything, so nothing
/// is wrong with it.
pub open spec fn range_fault(
    value: Double,
    low: int,
    high: int,
    too_low: Seq<char>,
    too_high: Seq<char>,
) -> Option<Seq<char>> {
    if value.below(low) {
        Some(too_low)
    } else if value.above(high) {
        Some(too_high)
    } else {
        None
    }
}

/// What is wrong with a temperature: valid ones lie in the closed range from 0 to 100.
pub open spec fn temperature_fault(value: Double) -> Option<Seq<char>> {
    range_fault(value, 0, 100, "INVALID TEMPERATURE: TOO LOW"@, "INVALID TEMPERATURE: TOO HIGH"@)
}

/// What is wrong with a pressure: valid ones lie in the closed range from 900 to 1100.
pub open spec fn pressure_fault(value: Double) -> Option<Seq<char>> {
    range_fault(value, 900, 1100, "INVALID PRESSURE: TOO LOW"@, "INVALID PRESSURE: TOO HIGH"@)
}

/// A temperature that is a number passes if and only if it lies in the closed range
/// from 0 to 100; below the range it is too low, above it too high.
pub proof fn lemma_temperature_rule(value: Double)
    requires
        !value.is_nan(),
    ensures
        temperature_fault(value) is None <==> whole(0) <= value.scaled() <= whole(100),
        temperature_fault(value) == Some("INVALID TEMPERATURE: TOO LOW"@)
            <==> value.scaled() < whole(0),
        temperature_fault(value) == Some("INVALID TEMPERATURE: TOO HIGH"@)
            <==> value.scaled() > whole(100),
{
    reveal_strlit("INVALID TEMPERATURE: TOO LOW");
    reveal_strlit("INVALID TEMPERATURE: TOO HIGH");
    assert("INVALID TEMPERATURE: TOO LOW"@.len() != "INVALID TEMPERATURE: TOO HIGH"@.len());
    lemma_pow2_pos(1074);
}

/// A pressure that is a number passes if and only if it lies in the closed range from
/// 900 to 1100; below the range it is too low, above it too high.
pub proof fn lemma_pressure_rule(value: Double)
    requires
        !value.is_nan(),
    ensures
        pressure_fault(value) is None <==> whole(900) <= value.scaled() <= whole(1100),
        pressure_fault(value) == Some("INVALID PRESSURE: TOO LOW"@)
            <==> value.scaled() < whole(900),
        pressure_fault(value) == Some("INVALID PRESSURE: TOO HIGH"@)
            <==> value.scaled() > whole(1100),
{
    reveal_strlit("INVALID PRESSURE: TOO LOW");
    reveal_strlit("INVALID PRESSURE: TOO HIGH");
    assert("INVALID PRESSURE: TOO LOW"@.len() != "INVALID PRESSURE: TOO HIGH"@.len());
    lemma_pow2_pos(1074);
}

/// Whether a check's answer is the one that `fault` calls for.
pub open spec fn reports(answer: Result<(), &'static str>, fault: Option<Seq<char>>) -> bool {
    match answer {
        Ok(_) => fault is None,
        Err(reason) => fault == Some(reason@),
    }
}

/// Checks a temperature against its range. Both bounds are valid. A NaN passes, since
/// it compares neither below nor above a bound; the infinities fail like any other
/// number beyond a bound.
pub fn validate_temperature(value: Double) -> (r: Result<(), &'static str>)
    ensures
        reports(r, temperature_fault(value)),
        !value.is_nan() && whole(0) <= value.scaled() <= whole(100) ==> r is Ok,
        value.below(0) ==> r is Err && r->Err_0@ == "INVALID TEMPERATURE: TOO LOW"@,
        value.above(100) ==> r is Err && r->Err_0@ == "INVALID TEMPERATURE: TOO HIGH"@,
{
    proof {
        lemma_bounds();
    }
    if value.lt(&Double { bits: TEMPERATURE_LOW_BITS }) {
        Err("INVALID TEMPERATURE: TOO LOW")
    } else if value.gt(&Double { bits: TEMPERATURE_HIGH_BITS }) {
        Err("INVALID TEMPERATURE: TOO HIGH")
    } else {
        Ok(())
    }
}

/// Checks a pressure against its range. Both bounds are valid. A NaN passes, since it
/// compares neither below nor above a bound; the infinities fail like any other number
/// beyond a bound.
pub fn validate_pressure(value: Double) -> (r: Result<(), &'static str>)
    ensures
        reports(r, pressure_fault(value)),
        !value.is_nan() && whole(900) <= value.scaled() <= whole(1100) ==> r is Ok,
        value.below(900) ==> r is Err && r->Err_0@ == "INVALID PRESSURE: TOO LOW"@,
        value.above(1100) ==> r is Err && r->Err_0@ == "INVALID PRESSURE: TOO HIGH"@,
{
    proof {
        lemma_bounds();
    }
    if value.lt(&Double { bits: PRESSURE_LOW_BITS }) {
        Err("INVALID PRESSURE: TOO LOW")
    } else if value.gt(&Double { bits: PRESSURE_HIGH_BITS }) {
        Err("INVALID PRESSURE: TOO HIGH")
    } else {
        Ok(())
    }
}

/// The lower-case form of a text, as `str::to_lowercase` gives it.
pub uninterp spec fn lowercase(text: Seq<char>) -> Seq<char>;

/// Calls `str::to_lowercase` of the standard library, which maps each character to its
/// Unicode lower-case form. The contract only names the outcome: it claims that the
/// returned text depends on the given text alone.
#[verifier::external_body]
fn to_lowercase(text: &str) -> (r: String)
    ensures
        r@ == lowercase(text@),
{
    text.to_lowercase()
}

/// The category that a lower-case name stands for, holding `value`.
pub open spec fn category(name: Seq<char>, value: Double) -> Option<SensorType> {
    if name == "temperature"@ {
        Some(SensorType::Temperature(value))
    } else if name == "pressure"@ {
        Some(SensorType::Pressure(value))
    } else {
        None
    }
}

/// A signed time stamp read as an unsigned one of 64 bits: a negative one wraps around
/// to `2^64` less its size.
pub open spec fn unsigned_timestamp(raw: i32) -> u64 {
    if raw >= 0 {
        raw as u64
    } else {
        (raw + 0x1_0000_0000_0000_0000) as u64
    }
}

/// The reading that a row yields once its category's name is in lower case, or the
/// message that says why it yields none.
pub open spec fn parse_named(name: Seq<char>, line: DataLine) -> Result<Sensor, Seq<char>> {
    match category(name, line.value) {
        None => Err("Unknown sensor type: "@ + line.sensor_type@),
        Some(sensor_data) => match sensor_data.fault() {
            Some(reason) => Err(reason),
            None => Ok(Sensor { sensor_data, timestamp: unsigned_timestamp(line.timestamp) }),
        },
    }
}

/// The reading that a row yields, or the message that says why it yields none.
pub open spec fn parse(line: DataLine) -> Result<Sensor, Seq<char>> {
    parse_named(lowercase(line.sensor_type@), line)
}

/// Whether the outcome of parsing a row is the expected one.
pub open spec fn agrees(outcome: Result<Sensor, String>, expected: Result<Sensor, Seq<char>>) -> bool {
    match outcome {
        Ok(sensor) => expected == Ok::<Sensor, Seq<char>>(sensor),
        Err(message) => expected == Err::<Sensor, Seq<char>>(message@),
    }
}

/// Reads a signed time stamp as an unsigned one.
fn widen(raw: i32) -> (r: u64)
    ensures
        r == unsigned_timestamp(raw),
{
    let wide: u64 = #[verifier::truncate] (raw as u64);
    assert(raw >= 0 ==> wide == raw) by (bit_vector)
        requires
            wide == raw as u64,
    ;
    assert(raw < 0 ==> wide == raw + 0x1_0000_0000_0000_0000) by (bit_vector)
        requires
            wide == raw as u64,
    ;
    wide
}

/// A sensor's category, with the value it measured.
#[derive(Debug)]
pub enum SensorType {
    Temperature(Double),
    Pressure(Double),
}

impl SensorType {
    /// Picks the category that a lower-case name stands for: `temperature` or
    /// `pressure`, and no other.
    pub fn from_name(name: &str, value: Double) -> (r: Option<SensorType>)
        ensures
            r == category(name@, value),
    {
        let given = String::from_str(name);
        if given == String::from_str("temperature") {
            Some(SensorType::Temperature(value))
        } else if given == String::from_str("pressure") {
            Some(SensorType::Pressure(value))
        } else {
            None
        }
    }

    /// What is wrong with the value under its category's rule, if anything.
    pub open spec fn fault(self) -> Option<Seq<char>> {
        match self {
            SensorType::Temperature(value) => temperature_fault(value),
            SensorType::Pressure(value) => pressure_fault(value),
        }
    }
}

impl PartialEq for SensorType {
    /// Two are equal if they are of one category and their values are equal numbers.
    fn eq(&self, other: &SensorType) -> (r: bool) {
        match (self, other) {
            (SensorType::Temperature(a), SensorType::Temperature(b)) => *a == *b,
            (SensorType::Pressure(a), SensorType::Pressure(b)) => *a == *b,
            _ => false,
        }
    }
}

impl vstd::std_specs::cmp::PartialEqSpecImpl for SensorType {
    open spec fn obeys_eq_spec() -> bool {
        true
    }

    open spec fn eq_spec(&self, other: &SensorType) -> bool {
        match (*self, *other) {
            (SensorType::Temperature(a), SensorType::Temperature(b)) => a.is_equal(b),
            (SensorType::Pressure(a), SensorType::Pressure(b)) => a.is_equal(b),
            _ => false,
        }
    }
}

/// A reading: what was measured, and when.
#[derive(Debug)]
pub struct Sensor {
    pub sensor_data: SensorType,
    pub timestamp: u64,
}

impl Sensor {
    /// Whether the reading passes its category's rule.
    pub open spec fn in_range(self) -> bool {
        self.sensor_data.fault() is None
    }

    /// Checks the reading against the rule of its category.
    pub fn validate(&self) -> (r: Result<(), &'static str>)
        ensures
            reports(r, self.sensor_data.fault()),
            r is Ok <==> self.in_range(),
    {
        match &self.sensor_data {
            SensorType::Temperature(temperature) => validate_temperature(*temperature),
            SensorType::Pressure(pressure) => validate_pressure(*pressure),
        }
    }

    /// Builds the reading of a row whose category's name, in lower case, is `name`. An
    /// unknown name is answered with a message that repeats the name as the row has
    /// it; a value outside the category's range with the rule's reason.
    pub fn from_normalized(name: &str, line: DataLine) -> (r: Result<Sensor, String>)
        ensures
            agrees(r, parse_named(name@, line)),
    {
        match SensorType::from_name(name, line.value) {
            None => Err(String::from_str("Unknown sensor type: ").concat(line.sensor_type.as_str())),
            Some(sensor_data) => {
                let sensor = Sensor { sensor_data, timestamp: widen(line.timestamp) };
                match sensor.validate() {
                    Err(reason) => Err(String::from_str(reason)),
                    Ok(_) => Ok(sensor),
                }
            },
        }
    }
}

impl TryFrom<DataLine> for Sensor {
    type Error = String;

    /// Builds the reading of a row. The category's name is matched without regard to
    /// case. Only a reading that passes its category's rule is returned.
    fn try_from(line: DataLine) -> (r: Result<Sensor, String>)
        ensures
            agrees(r, parse(line)),
            r is Ok ==> r->Ok_0.in_range(),
    {
        let name = to_lowercase(line.sensor_type.as_str());
        Sensor::from_normalized(name.as_str(), line)
    }
}

/// The conversion's outcome is stated by the `ensures` of `try_from`, over the texts
/// of the messages. It is not given as a value here: a message in a contract is a
/// sequence of characters, not a `String`.
impl vstd::std_specs::convert::TryFromSpecImpl<DataLine> for Sensor {
    open spec fn obeys_try_from_spec() -> bool {
        false
    }

    open spec fn try_from_spec(line: DataLine) -> Result<Sensor, String> {
        arbitrary()
    }
}

} // verus!
