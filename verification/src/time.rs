//! Timestamp parsing and the wall-clock reading that names partitions,
//! both obtained from chrono behind trusted contracts.

use vstd::prelude::*;

verus! {

/// What chrono computes for an RFC 3339 date-time string: the UTC instant in
/// microseconds since the epoch when the string parses, nothing when it does
/// not. The result depends on the characters of the string alone.
pub uninterp spec fn rfc3339_micros(s: Seq<char>) -> Option<i64>;

/// Relies on chrono::DateTime::parse_from_rfc3339 and timestamp_micros: the
/// parse is a pure function of the input string, and every date-time chrono
/// can represent has a microsecond count that fits in an i64.
#[verifier::external_body]
pub(crate) fn parse_rfc3339_micros(s: &str) -> (r: Option<i64>)
    ensures
        r == rfc3339_micros(s@),
{
    match chrono::DateTime::parse_from_rfc3339(s) {
        Ok(dt) => Some(dt.timestamp_micros()),
        Err(_) => None,
    }
}

/// One reading of the UTC wall clock, reduced to the calendar fields that
/// name a partition.
#[derive(Clone, Copy, PartialEq, Eq, Structural)]
pub struct UtcStamp {
    pub year: i32,
    pub month: u32,
    pub day: u32,
    pub hour: u32,
}

impl UtcStamp {
    /// The ranges chrono documents for its calendar accessors.
    pub open spec fn wf(self) -> bool {
        &&& 1 <= self.month <= 12
        &&& 1 <= self.day <= 31
        &&& self.hour <= 23
    }
}

/// Relies on chrono::Utc::now with the Datelike and Timelike accessors:
/// whatever instant comes back, month is in 1..=12, day in 1..=31 and hour
/// in 0..=23.
#[verifier::external_body]
pub(crate) fn now_utc_stamp() -> (r: UtcStamp)
    ensures
        r.wf(),
{
    let now = chrono::Utc::now();
    UtcStamp {
        year: chrono::Datelike::year(&now),
        month: chrono::Datelike::month(&now),
        day: chrono::Datelike::day(&now),
        hour: chrono::Timelike::hour(&now),
    }
}

} // verus!
