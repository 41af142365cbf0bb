//! Validation of sensor readings.
//!
//! A file of readings has a header and one row per reading: the sensor's category, the
//! value it measured and a time stamp. Each decoded row is held against the range rule
//! of its category, and the outcome of all rows is gathered in a report: the readings
//! that passed, and for every other row the line it stands on and the reason.

use vstd::prelude::*;

pub mod double;
pub mod read_csv;
pub mod sensor;
pub mod text;

pub use double::Double;
pub use read_csv::{read_data_lines, DataLine, Percentage, ValidationError, ValidationResult};
pub use sensor::{validate_pressure, validate_temperature, Sensor, SensorType};

verus! {

/// What a run needs to know: the file to read.
pub struct Config {
    pub file_path: String,
}

impl Config {
    /// Takes the file's path from the command line: the argument after the program's
    /// name. Further arguments are ignored.
    pub fn build(args: &[String]) -> (r: Result<Config, &'static str>)
        ensures
            args@.len() < 2 ==> r is Err && r->Err_0@ == "Usage: cargo run <file_path>"@,
            args@.len() >= 2 ==> r is Ok && r->Ok_0.file_path@ == args@[1]@,
    {
        if args.len() < 2 {
            return Err("Usage: cargo run <file_path>");
        }
        let file_path = args[1].clone();
        Ok(Config { file_path })
    }
}

} // verus!
