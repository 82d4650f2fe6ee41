//! Points in time.
use vstd::prelude::*;

verus! {

/// A point in time, in nanoseconds since the start of 1970 (UTC).
#[derive(Clone, Copy, Debug, PartialEq, Eq, Structural)]
pub struct Timestamp {
    pub nanos: i128,
}

/// The earliest point in time that the calendar reaches: the start of the year
/// -262143.
pub const EARLIEST_NANOS: i128 = -8_334_601_228_800_000_000_000;

/// The latest point in time that the calendar reaches: the end of the year
/// 262142.
pub const LATEST_NANOS: i128 = 8_210_266_876_799_999_999_999;

impl Timestamp {
    /// Whether the calendar reaches this point in time.
    pub open spec fn in_calendar(&self) -> bool {
        EARLIEST_NANOS <= self.nanos <= LATEST_NANOS
    }

    /// The earliest point in time that the calendar reaches.
    pub fn earliest() -> (r: Self)
        ensures
            r.nanos == EARLIEST_NANOS,
    {
        Timestamp { nanos: EARLIEST_NANOS }
    }
}

/// `chrono::Utc::now`, as whole seconds since the start of 1970 and the nanoseconds
/// on top. The time is one that the calendar reaches, and not before that start; a
/// clock that is set earlier makes the call panic.
#[verifier::external_body]
fn clock() -> (r: (i64, u32))
    ensures
        0 <= r.0 <= 8_210_266_876_799,
        r.1 < 1_000_000_000,
{
    let t = chrono::Utc::now();
    (t.timestamp(), t.timestamp_subsec_nanos())
}

/// The present time, as the system clock has it. Which it is depends on that clock.
pub fn now() -> (r: Timestamp)
    ensures
        r.in_calendar(),
        r.nanos >= 0,
{
    let (seconds, nanos) = clock();
    Timestamp { nanos: (seconds as i128) * 1_000_000_000 + (nanos as i128) }
}

} // verus!
