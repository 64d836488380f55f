//! The wall clock, reduced to plain calendar fields.

use vstd::prelude::*;
use chrono::{Datelike, Timelike};
use crate::timestamp::Timestamp;

verus! {

/// Relies on chrono's `Utc::now` and its `Datelike`/`Timelike`
/// accessors, which document that month is 1..=12, day 1..=31,
/// hour 0..=23, minute 0..=59 and second 0..=59. The instant itself
/// depends on the machine's clock, so nothing more is promised.
#[verifier::external_body]
fn utc_now_fields() -> (r: (i32, u32, u32, u32, u32, u32))
    ensures
        1 <= r.1 <= 12,
        1 <= r.2 <= 31,
        r.3 <= 23,
        r.4 <= 59,
        r.5 <= 59,
{
    let now = chrono::Utc::now();
    (now.year(), now.month(), now.day(), now.hour(), now.minute(), now.second())
}

/// The current UTC wall-clock time as a well-formed [`Timestamp`].
/// Falls back to the epoch if the clock reports a year outside the
/// four-digit range.
pub fn now_timestamp() -> (r: Timestamp)
    ensures
        r.well_formed(),
{
    let (year, month, day, hour, minute, second) = utc_now_fields();
    Timestamp::from_clock_fields(year, month, day, hour, minute, second)
}

} // verus!
