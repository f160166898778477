//! The name of the CSV file a run writes: the local date and time as year,
//! month, day, then minute before hour, and the extension `.csv`.
use vstd::prelude::*;
use chrono::{Datelike, Timelike};
use crate::decimal::{padded, padded_text};

verus! {

/// A local date and time, to the minute.
pub struct Timestamp {
    pub year: i32,
    pub month: u32,
    pub day: u32,
    pub hour: u32,
    pub minute: u32,
}

impl Timestamp {
    /// The fields lie in their calendar ranges.
    pub open spec fn wf(&self) -> bool {
        1 <= self.month <= 12 && 1 <= self.day <= 31 && self.hour < 24 && self.minute < 60
    }
}

/// The year as the `%Y` field writes it: four digits, zero-led, for years
/// `0..=9999`; otherwise a sign and at least four digits.
pub open spec fn year_text(year: int) -> Seq<char> {
    if 0 <= year <= 9999 {
        padded(year as nat, 4)
    } else if year < 0 {
        seq!['-'] + padded((-year) as nat, 4)
    } else {
        seq!['+'] + padded(year as nat, 4)
    }
}

/// The file name of a run started at `ts`.
pub open spec fn file_name_text(ts: Timestamp) -> Seq<char> {
    year_text(ts.year as int) + padded(ts.month as nat, 2) + padded(ts.day as nat, 2) + padded(
        ts.minute as nat,
        2,
    ) + padded(ts.hour as nat, 2) + ".csv"@
}

/// The path of the file of a run started at `ts`, under the directory `dir`.
pub open spec fn csv_path_text(dir: Seq<char>, ts: Timestamp) -> Seq<char> {
    dir + "/"@ + file_name_text(ts)
}

fn year_field(year: i32) -> (r: String)
    ensures
        r@ == year_text(year as int),
{
    if 0 <= year && year <= 9999 {
        padded_text(year as u64, 4)
    } else {
        let mut s = if year < 0 {
            String::from_str("-")
        } else {
            String::from_str("+")
        };
        let magnitude: u64 = if year < 0 {
            (-(year as i64)) as u64
        } else {
            year as u64
        };
        let digits = padded_text(magnitude, 4);
        s.append(digits.as_str());
        proof {
            reveal_strlit("-");
            reveal_strlit("+");
        }
        s
    }
}

/// The file name of a run started at `ts`.
pub fn file_name(ts: &Timestamp) -> (r: String)
    ensures
        r@ == file_name_text(*ts),
{
    let mut s = year_field(ts.year);
    s.append(padded_text(ts.month as u64, 2).as_str());
    s.append(padded_text(ts.day as u64, 2).as_str());
    s.append(padded_text(ts.minute as u64, 2).as_str());
    s.append(padded_text(ts.hour as u64, 2).as_str());
    s.append(".csv");
    proof {
        reveal_strlit(".csv");
    }
    s
}

/// The path of the file of a run started at `ts`, under the directory `dir`.
pub fn csv_path(dir: &str, ts: &Timestamp) -> (r: String)
    ensures
        r@ == csv_path_text(dir@, *ts),
{
    let mut s = String::from_str(dir);
    s.append("/");
    s.append(file_name(ts).as_str());
    proof {
        reveal_strlit("/");
    }
    s
}

/// Relies on chrono's `Local::now` for the local date and time, read through
/// `Datelike::{year, month, day}` and `Timelike::{hour, minute}`, whose
/// documented ranges are 1 to 12, 1 to 31, 0 to 23 and 0 to 59.
#[verifier::external_body]
fn local_now() -> (r: Timestamp)
    ensures
        r.wf(),
{
    let now = chrono::Local::now();
    Timestamp {
        year: now.year(),
        month: now.month(),
        day: now.day(),
        hour: now.hour(),
        minute: now.minute(),
    }
}

/// The path of the file of a run started now, under the directory `dir`.
pub fn output_file_path(dir: &str) -> (r: String)
    ensures
        exists|ts: Timestamp| ts.wf() && r@ == csv_path_text(dir@, ts),
{
    let ts = local_now();
    csv_path(dir, &ts)
}

} // verus!
