//! Wall-clock readings, taken through the `chrono` crate.  Nothing can be
//! promised about the time itself; the contracts state only the documented
//! ranges of the calendar components, and the verified formatting code
//! works for every reading.

use vstd::prelude::*;

verus! {

/// A local calendar date and time, split into plain components.
#[derive(Debug, Clone, Copy)]
pub struct LocalTimestamp {
    pub year: i32,
    pub month: u32,
    pub day: u32,
    pub hour: u32,
    pub minute: u32,
    pub second: u32,
}

/// The component ranges that `chrono` documents for a valid date-time:
/// month 1..=12, day 1..=31, hour below 24, minute and second below 60.
pub open spec fn timestamp_in_range(t: LocalTimestamp) -> bool {
    &&& 1 <= t.month <= 12
    &&& 1 <= t.day <= 31
    &&& t.hour < 24
    &&& t.minute < 60
    &&& t.second < 60
}

/// Relies on `chrono::Local::now` and the `Datelike`/`Timelike`
/// accessors: the reading is arbitrary, but the components lie in the
/// documented calendar ranges.
#[verifier::external_body]
pub fn local_now() -> (t: LocalTimestamp)
    ensures
        timestamp_in_range(t),
{
    let now = chrono::Local::now();
    LocalTimestamp {
        year: chrono::Datelike::year(&now),
        month: chrono::Datelike::month(&now),
        day: chrono::Datelike::day(&now),
        hour: chrono::Timelike::hour(&now),
        minute: chrono::Timelike::minute(&now),
        second: chrono::Timelike::second(&now),
    }
}

/// Relies on `chrono::Utc::now` and `DateTime::timestamp_millis`: an
/// arbitrary reading of the clock as milliseconds since the epoch.
#[verifier::external_body]
pub fn utc_now_millis() -> (ms: i64) {
    chrono::Utc::now().timestamp_millis()
}

} // verus!
