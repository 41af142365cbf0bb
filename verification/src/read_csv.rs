//! Rows of sensor data and the report on their validation.

use vstd::prelude::*;
use vstd::string::*;
use crate::double::Double;
use crate::sensor::{parse, Sensor};
use crate::text::{decimal, to_decimal};

verus! {

/// One decoded row: the category's name as written, the value and the time stamp.
#[derive(Debug)]
pub struct DataLine {
    pub sensor_type: String,
    pub value: Double,
    pub timestamp: i32,
}

/// A row that yielded no reading: the line it stands on, and why.
#[derive(Debug)]
pub struct ValidationError {
    pub line_number: usize,
    pub error_message: String,
}

/// What a [`ValidationError`] says: the line, counted from 1 for the header, and the
/// message.
pub struct Failure {
    pub line_number: int,
    pub message: Seq<char>,
}

impl View for ValidationError {
    type V = Failure;

    open spec fn view(&self) -> Failure {
        Failure { line_number: self.line_number as int, message: self.error_message@ }
    }
}

/// The outcome of validating all rows: the readings that passed and the rows that
/// failed, each in the order of the rows.
#[derive(Debug)]
pub struct ValidationResult {
    pub valid_sensors: Vec<Sensor>,
    pub errors: Vec<ValidationError>,
}

/// What a [`ValidationResult`] holds.
pub struct Report {
    pub valid: Seq<Sensor>,
    pub errors: Seq<Failure>,
}

impl View for ValidationResult {
    type V = Report;

    open spec fn view(&self) -> Report {
        Report {
            valid: self.valid_sensors@,
            errors: self.errors@.map_values(|error: ValidationError| error@),
        }
    }
}

/// What one row comes to: its reading, or the message to log. A row is either decoded,
/// or comes with the decoder's words on why it could not be.
pub open spec fn outcome(row: Result<DataLine, String>) -> Result<Sensor, Seq<char>> {
    match row {
        Ok(line) => parse(line),
        Err(detail) => Err("CSV parse error: "@ + detail@),
    }
}

/// The report on a run of data rows. The header is line 1, so the row at index `i`
/// stands on line `i + 2`.
pub open spec fn report(rows: Seq<Result<DataLine, String>>) -> Report
    decreases rows.len(),
{
    if rows.len() == 0 {
        Report { valid: Seq::empty(), errors: Seq::empty() }
    } else {
        let before = report(rows.drop_last());
        match outcome(rows.last()) {
            Ok(sensor) => Report { valid: before.valid.push(sensor), errors: before.errors },
            Err(message) => Report {
                valid: before.valid,
                errors: before.errors.push(Failure { line_number: rows.len() as int + 1, message }),
            },
        }
    }
}

/// Every row is counted once: as a valid reading or as an error.
pub proof fn lemma_report_counts(rows: Seq<Result<DataLine, String>>)
    ensures
        report(rows).valid.len() + report(rows).errors.len() == rows.len(),
    decreases rows.len(),
{
    if rows.len() > 0 {
        lemma_report_counts(rows.drop_last());
    }
}

/// The report on the first `n` rows is the beginning of the report on all of them.
pub proof fn lemma_report_of_prefix(rows: Seq<Result<DataLine, String>>, n: int)
    requires
        0 <= n <= rows.len(),
    ensures
        report(rows.take(n)).valid.is_prefix_of(report(rows).valid),
        report(rows.take(n)).errors.is_prefix_of(report(rows).errors),
    decreases rows.len(),
{
    if n == rows.len() {
        assert(rows.take(n) =~= rows);
    } else {
        lemma_report_of_prefix(rows.drop_last(), n);
        assert(rows.drop_last().take(n) =~= rows.take(n));
    }
}

/// A failing row is logged under its own line: the row at index `i` under line
/// `i + 2`, however many rows before it failed. Its entry follows those of the failing
/// rows before it.
pub proof fn lemma_failure_line(rows: Seq<Result<DataLine, String>>, i: int)
    requires
        0 <= i < rows.len(),
        outcome(rows[i]) is Err,
    ensures
        ({
            let k = report(rows.take(i)).errors.len() as int;
            &&& k < report(rows).errors.len()
            &&& report(rows).errors[k] == Failure {
                line_number: i + 2,
                message: outcome(rows[i])->Err_0,
            }
        }),
{
    let upto = rows.take(i + 1);
    let k = report(rows.take(i)).errors.len() as int;
    assert(upto.drop_last() =~= rows.take(i));
    assert(upto.last() == rows[i]);
    assert(report(upto).errors == report(rows.take(i)).errors.push(
        Failure { line_number: i + 2, message: outcome(rows[i])->Err_0 },
    ));
    lemma_report_of_prefix(rows, i + 1);
    assert(report(upto).errors[k] == report(rows).errors[k]);
}

/// A passing row's reading is kept, after those of the passing rows before it.
pub proof fn lemma_valid_reading(rows: Seq<Result<DataLine, String>>, i: int)
    requires
        0 <= i < rows.len(),
        outcome(rows[i]) is Ok,
    ensures
        ({
            let k = report(rows.take(i)).valid.len() as int;
            &&& k < report(rows).valid.len()
            &&& report(rows).valid[k] == outcome(rows[i])->Ok_0
        }),
{
    let upto = rows.take(i + 1);
    let k = report(rows.take(i)).valid.len() as int;
    assert(upto.drop_last() =~= rows.take(i));
    assert(upto.last() == rows[i]);
    assert(report(upto).valid == report(rows.take(i)).valid.push(outcome(rows[i])->Ok_0));
    lemma_report_of_prefix(rows, i + 1);
    assert(report(upto).valid[k] == report(rows).valid[k]);
}

/// Every entry of the error log is the outcome of the row on its line, and the lines
/// of the log rise from entry to entry.
pub proof fn lemma_error_log(rows: Seq<Result<DataLine, String>>, k: int)
    requires
        0 <= k < report(rows).errors.len(),
    ensures
        ({
            let entry = report(rows).errors[k];
            &&& 2 <= entry.line_number <= rows.len() + 1
            &&& outcome(rows[entry.line_number - 2]) == Err::<Sensor, Seq<char>>(entry.message)
            &&& forall|j: int|
                0 <= j < k ==> (#[trigger] report(rows).errors[j]).line_number < entry.line_number
        }),
    decreases rows.len(),
{
    if rows.len() > 0 {
        let before = rows.drop_last();
        if k < report(before).errors.len() {
            lemma_error_log(before, k);
        } else {
            assert forall|j: int| 0 <= j < k implies (#[trigger] report(rows).errors[j]).line_number
                < report(rows).errors[k].line_number by {
                lemma_error_log(before, j);
            }
        }
    }
}

/// Every reading of the report is the outcome of some row, and passes its category's
/// rule.
pub proof fn lemma_valid_readings(rows: Seq<Result<DataLine, String>>, k: int)
    requires
        0 <= k < report(rows).valid.len(),
    ensures
        report(rows).valid[k].in_range(),
        exists|i: int| 0 <= i < rows.len() && outcome(#[trigger] rows[i]) == Ok::<Sensor, Seq<char>>(
            report(rows).valid[k],
        ),
    decreases rows.len(),
{
    if rows.len() > 0 {
        let before = rows.drop_last();
        if k < report(before).valid.len() {
            lemma_valid_readings(before, k);
            let i = choose|i: int| 0 <= i < before.len() && outcome(#[trigger] before[i]) == Ok::<Sensor, Seq<char>>(
                report(before).valid[k],
            );
            assert(rows[i] == before[i]);
        } else {
            assert(outcome(rows[rows.len() - 1]) == Ok::<Sensor, Seq<char>>(report(rows).valid[k]));
        }
    }
}

/// A rate in percent, as an exact fraction: `numerator / denominator` percent. The
/// denominator is never zero.
#[derive(Clone, Copy, Debug)]
pub struct Percentage {
    pub numerator: u128,
    pub denominator: u128,
}

/// The summary of a report with so many valid readings and so many errors.
pub open spec fn summary_text(valid: nat, invalid: nat) -> Seq<char> {
    "Validation Complete:\n Valid: "@ + decimal(valid) + "\n Invalid: "@ + decimal(invalid)
        + "\n Total: "@ + decimal(valid + invalid)
}

/// The share of valid readings among all rows, in percent: `100 * valid / total`, and
/// zero where there are no rows.
pub open spec fn rate(valid: nat, invalid: nat) -> Percentage {
    if valid + invalid == 0 {
        Percentage { numerator: 0, denominator: 1 }
    } else {
        Percentage { numerator: (100 * valid) as u128, denominator: (valid + invalid) as u128 }
    }
}

impl ValidationResult {
    /// Whether the report can be the outcome of a run: every reading in it passes its
    /// category's rule, every error stands on a line after the header's, and the
    /// errors are in the order of their lines.
    pub open spec fn well_formed(&self) -> bool {
        &&& forall|k: int|
            0 <= k < self.valid_sensors@.len() ==> (#[trigger] self.valid_sensors@[k]).in_range()
        &&& forall|k: int|
            0 <= k < self.errors@.len() ==> (#[trigger] self.errors@[k]).line_number >= 2
        &&& forall|j: int, k: int|
            0 <= j < k < self.errors@.len() ==> (#[trigger] self.errors@[j]).line_number < (
            #[trigger] self.errors@[k]).line_number
    }

    /// A report on no rows.
    pub fn new() -> (r: ValidationResult)
        ensures
            r@ == report(Seq::empty()),
            r.valid_sensors@.len() == 0,
            r.errors@.len() == 0,
            r.well_formed(),
    {
        let r = ValidationResult { valid_sensors: Vec::new(), errors: Vec::new() };
        assert(r@.errors =~= Seq::empty());
        r
    }

    /// The counts of the report in words: valid readings, errors, and both together.
    pub fn summary(&self) -> (r: String)
        ensures
            r@ == summary_text(self.valid_sensors@.len(), self.errors@.len()),
    {
        let valid: u128 = self.valid_sensors.len() as u128;
        let invalid: u128 = self.errors.len() as u128;
        let r = String::from_str("Validation Complete:\n Valid: ")
            .concat(to_decimal(valid).as_str())
            .concat("\n Invalid: ")
            .concat(to_decimal(invalid).as_str())
            .concat("\n Total: ")
            .concat(to_decimal(valid + invalid).as_str());
        r
    }

    /// The share of valid readings among all rows, in percent. A report on no rows has
    /// the rate zero.
    pub fn success_rate(&self) -> (r: Percentage)
        ensures
            r == rate(self.valid_sensors@.len(), self.errors@.len()),
            r.denominator > 0,
            r.numerator <= 100 * r.denominator,
            self.valid_sensors@.len() + self.errors@.len() == 0 ==> r.numerator == 0,
    {
        let valid: u128 = self.valid_sensors.len() as u128;
        let total: u128 = valid + self.errors.len() as u128;
        if total == 0 {
            Percentage { numerator: 0, denominator: 1 }
        } else {
            Percentage { numerator: 100 * valid, denominator: total }
        }
    }
}

/// Validates the data rows of a file, in order. Each row either adds its reading to
/// the valid ones or an entry to the error log, under its line number; no row stops
/// the run.
pub fn read_data_lines(rows: Vec<Result<DataLine, String>>) -> (result: ValidationResult)
    requires
        rows.len() + 1 <= usize::MAX,
    ensures
        result@ == report(rows@),
        result.well_formed(),
        result.valid_sensors.len() + result.errors.len() == rows.len(),
        forall|k: int|
            #![trigger result.errors[k]]
            0 <= k < result.errors.len() ==> {
                let entry = result.errors[k];
                &&& 2 <= entry.line_number <= rows.len() + 1
                &&& outcome(rows[entry.line_number - 2]) == Err::<Sensor, Seq<char>>(
                    entry.error_message@,
                )
            },
{
    let ghost all = rows@;
    let mut result = ValidationResult::new();
    let mut index: usize = 0;
    assert(all.take(0) =~= Seq::empty());
    for row in iter: rows
        invariant
            iter.seq() == all,
            index == iter.index(),
            all.len() + 1 <= usize::MAX,
            result@ == report(all.take(index as int)),
    {
        let line_number: usize = index + 2;
        let ghost before = result@;
        proof {
            let upto = all.take(index + 1);
            assert(upto.drop_last() =~= all.take(index as int));
            assert(upto.last() == row);
        }
        match row {
            Ok(record) => {
                match Sensor::try_from(record) {
                    Ok(sensor) => {
                        result.valid_sensors.push(sensor);
                        assert(result@.errors =~= before.errors);
                    },
                    Err(error_message) => {
                        let error = ValidationError { line_number, error_message };
                        result.errors.push(error);
                        assert(result@.errors =~= before.errors.push(error@));
                    },
                }
            },
            Err(detail) => {
                let error_message = String::from_str("CSV parse error: ").concat(detail.as_str());
                let error = ValidationError { line_number, error_message };
                result.errors.push(error);
                assert(result@.errors =~= before.errors.push(error@));
            },
        }
        index = index + 1;
    }
    proof {
        assert(all.take(index as int) =~= all);
        lemma_report_counts(all);
        assert forall|k: int| 0 <= k < result.valid_sensors@.len() implies (
        #[trigger] result.valid_sensors@[k]).in_range() by {
            lemma_valid_readings(all, k);
        }
        assert forall|k: int| 0 <= k < result.errors@.len() implies {
            let entry = #[trigger] result.errors@[k];
            &&& 2 <= entry.line_number <= all.len() + 1
            &&& outcome(all[entry.line_number - 2]) == Err::<Sensor, Seq<char>>(entry.error_message@)
            &&& forall|j: int| 0 <= j < k ==> (#[trigger] result.errors@[j]).line_number < entry.line_number
        } by {
            lemma_error_log(all, k);
            assert(result@.errors[k] == result.errors@[k]@);
            assert forall|j: int| 0 <= j < k implies (#[trigger] result.errors@[j]).line_number
                < result.errors@[k].line_number by {
                assert(result@.errors[j] == result.errors@[j]@);
            }
        }
    }
    result
}

} // verus!
