//! The wall clock, read through chrono. These are the library's only trusted
//! bridges to the outside world: everything computed from them is verified.

use vstd::prelude::*;
use crate::dates::valid_ymd;
use crate::text::is_wspace;
use chrono::{Datelike, Timelike};

verus! {

/// A reading of the local wall clock, broken into plain fields.
pub struct ClockStamp {
    pub year: i32,
    pub month: u64,
    pub day: u64,
    pub hour: u64,
    pub minute: u64,
    pub second: u64,
    pub epoch_millis: i64,
}

impl ClockStamp {
    /// What chrono guarantees of any local time it hands out.
    pub open spec fn wf(&self) -> bool {
        valid_ymd(self.year as int, self.month as int, self.day as int) && self.hour < 24
            && self.minute < 60 && self.second < 60
    }
}

/// Relies on chrono's `Local::now` and its `Datelike`/`Timelike` accessors:
/// the fields form a real calendar date and a time of day.
#[verifier::external_body]
pub fn now_stamp() -> (r: ClockStamp)
    ensures
        r.wf(),
{
    let now = chrono::Local::now();
    ClockStamp {
        year: now.year(),
        month: now.month() as u64,
        day: now.day() as u64,
        hour: now.hour() as u64,
        minute: now.minute() as u64,
        second: now.second() as u64,
        epoch_millis: now.timestamp_millis(),
    }
}

/// Relies on chrono's `Local::now().to_rfc3339()`: an RFC3339 timestamp is
/// non-empty and carries no surrounding whitespace.
#[verifier::external_body]
pub fn now_rfc3339() -> (r: String)
    ensures
        r@.len() > 0,
        !is_wspace(r@[0]),
        !is_wspace(r@.last()),
{
    chrono::Local::now().to_rfc3339()
}

} // verus!
