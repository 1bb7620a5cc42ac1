//! The wall clock, read through chrono.
use vstd::prelude::*;
use chrono::{Datelike, Timelike};
use crate::models::Timestamp;

verus! {

/// The current local date and time (`chrono::Local::now`), field by field.
/// The result depends on the clock; the contract states only that it is a
/// date-time chrono can hold (an existing day of a year in chrono's range,
/// and a time of day), which every `NaiveDateTime` is.
#[verifier::external_body]
pub(crate) fn now_local() -> (t: Timestamp)
    ensures
        crate::time::valid_timestamp(t),
{
    let n = chrono::Local::now().naive_local();
    Timestamp {
        year: n.year(),
        month: n.month(),
        day: n.day(),
        hour: n.hour(),
        minute: n.minute(),
        second: n.second(),
    }
}

/// The current local date and time, a date-time chrono can hold (see
/// `now_local`).
pub fn current_time() -> (t: Timestamp)
    ensures
        crate::time::valid_timestamp(t),
{
    now_local()
}

} // verus!
